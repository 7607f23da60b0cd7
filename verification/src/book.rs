//! Which book a document is: the code on its `\id` line.
use vstd::prelude::*;
use crate::span::Span;
use crate::strings::{str_chars, str_eq};

verus! {

/// The `\id` line: the book's code, the text after it, and where it was read.
#[derive(Debug, Clone, PartialEq)]
pub struct Book {
    pub code: BookCode,
    pub description: String,
    /// Source range of the whole `\id` line.
    pub span: Span,
}

#[derive(Debug, Clone, Copy, PartialEq, Eq, Structural)]
pub enum BookCategory {
    OldTestament,
    NewTestament,
    Deuterocanon,
    NonScripture,
    /// A well-formed code that is not one of the listed books.
    Other,
}

#[derive(Debug, Clone, Copy, PartialEq, Eq)]
pub enum BookCode {
    Gen,
    Exo,
    Lev,
    Num,
    Deu,
    Jos,
    Jdg,
    Rut,
    Sa1,
    Sa2,
    Ki1,
    Ki2,
    Ch1,
    Ch2,
    Ezr,
    Neh,
    Est,
    Job,
    Psa,
    Pro,
    Ecc,
    Sng,
    Isa,
    Jer,
    Lam,
    Ezk,
    Dan,
    Hos,
    Jol,
    Amo,
    Oba,
    Jon,
    Mic,
    Nam,
    Hab,
    Zep,
    Hag,
    Zec,
    Mal,
    Mat,
    Mrk,
    Luk,
    Jhn,
    Act,
    Rom,
    Co1,
    Co2,
    Gal,
    Eph,
    Php,
    Col,
    Th1,
    Th2,
    Ti1,
    Ti2,
    Tit,
    Phm,
    Heb,
    Jas,
    Pe1,
    Pe2,
    Jn1,
    Jn2,
    Jn3,
    Jud,
    Rev,
    Tob,
    Jdt,
    Esg,
    Wis,
    Sir,
    Bar,
    Lje,
    S3y,
    Sus,
    Bel,
    Ma1,
    Ma2,
    Ma3,
    Ma4,
    Es1,
    Es2,
    Man,
    Ps2,
    Oda,
    Pss,
    Eza,
    Ez5,
    Ez6,
    Dag,
    Ps3,
    Ba2,
    Lba,
    Jub,
    Eno,
    Mq1,
    Mq2,
    Mq3,
    Rep,
    Ba4,
    Lao,
    Xxa,
    Xxb,
    Xxc,
    Xxd,
    Xxe,
    Xxf,
    Xxg,
    Frt,
    Bak,
    Oth,
    Int,
    Cnc,
    Glo,
    Tdx,
    Ndx,
    /// A code USX accepts that is not one of the books above, kept as its
    /// three ASCII bytes so that it round-trips.
    Other([u8; 3]),
}

/// An ASCII uppercase letter.
pub open spec fn is_upper(c: char) -> bool {
    'A' <= c && c <= 'Z'
}

/// An ASCII digit.
pub open spec fn is_digit(c: char) -> bool {
    '0' <= c && c <= '9'
}

/// The catch-all `book@code` pattern of `usx.rnc`:
/// `[A-Z][A-Z0-9]{2}|[0-9][A-Z][0-9]|[0-9]{2}[A-Z]`.
pub open spec fn well_formed_code(code: Seq<char>) -> bool {
    code.len() == 3 && {
        let (a, b, c) = (code[0], code[1], code[2]);
        ||| is_upper(a) && (is_upper(b) || is_digit(b)) && (is_upper(c) || is_digit(c))
        ||| is_digit(a) && is_upper(b) && is_digit(c)
        ||| is_digit(a) && is_digit(b) && is_upper(c)
    }
}

/// Whether `code` matches the catch-all `book@code` pattern in `usx.rnc`,
/// `[A-Z][A-Z0-9]{2}|[0-9][A-Z][0-9]|[0-9]{2}[A-Z]`.
pub fn is_well_formed_book_code(code: &str) -> (b: bool)
    ensures
        b == well_formed_code(code@),
{
    let chars = str_chars(code);
    if chars.len() != 3 {
        return false;
    }
    let a = chars[0];
    let b = chars[1];
    let c = chars[2];
    let upper_a = 'A' <= a && a <= 'Z';
    let upper_b = 'A' <= b && b <= 'Z';
    let upper_c = 'A' <= c && c <= 'Z';
    let digit_a = '0' <= a && a <= '9';
    let digit_b = '0' <= b && b <= '9';
    let digit_c = '0' <= c && c <= '9';
    (upper_a && (upper_b || digit_b) && (upper_c || digit_c)) || (digit_a && upper_b && digit_c)
        || (digit_a && digit_b && upper_c)
}

/// The category each listed book belongs to.
pub open spec fn spec_category(code: BookCode) -> BookCategory {
    match code {
            BookCode::Gen
            | BookCode::Exo
            | BookCode::Lev
            | BookCode::Num
            | BookCode::Deu
            | BookCode::Jos
            | BookCode::Jdg
            | BookCode::Rut
            | BookCode::Sa1
            | BookCode::Sa2
            | BookCode::Ki1
            | BookCode::Ki2
            | BookCode::Ch1
            | BookCode::Ch2
            | BookCode::Ezr
            | BookCode::Neh
            | BookCode::Est
            | BookCode::Job
            | BookCode::Psa
            | BookCode::Pro
            | BookCode::Ecc
            | BookCode::Sng
            | BookCode::Isa
            | BookCode::Jer
            | BookCode::Lam
            | BookCode::Ezk
            | BookCode::Dan
            | BookCode::Hos
            | BookCode::Jol
            | BookCode::Amo
            | BookCode::Oba
            | BookCode::Jon
            | BookCode::Mic
            | BookCode::Nam
            | BookCode::Hab
            | BookCode::Zep
            | BookCode::Hag
            | BookCode::Zec
            | BookCode::Mal => BookCategory::OldTestament,
            BookCode::Mat
            | BookCode::Mrk
            | BookCode::Luk
            | BookCode::Jhn
            | BookCode::Act
            | BookCode::Rom
            | BookCode::Co1
            | BookCode::Co2
            | BookCode::Gal
            | BookCode::Eph
            | BookCode::Php
            | BookCode::Col
            | BookCode::Th1
            | BookCode::Th2
            | BookCode::Ti1
            | BookCode::Ti2
            | BookCode::Tit
            | BookCode::Phm
            | BookCode::Heb
            | BookCode::Jas
            | BookCode::Pe1
            | BookCode::Pe2
            | BookCode::Jn1
            | BookCode::Jn2
            | BookCode::Jn3
            | BookCode::Jud
            | BookCode::Rev => BookCategory::NewTestament,
            BookCode::Tob
            | BookCode::Jdt
            | BookCode::Esg
            | BookCode::Wis
            | BookCode::Sir
            | BookCode::Bar
            | BookCode::Lje
            | BookCode::S3y
            | BookCode::Sus
            | BookCode::Bel
            | BookCode::Ma1
            | BookCode::Ma2
            | BookCode::Ma3
            | BookCode::Ma4
            | BookCode::Es1
            | BookCode::Es2
            | BookCode::Man
            | BookCode::Ps2
            | BookCode::Oda
            | BookCode::Pss
            | BookCode::Eza
            | BookCode::Ez5
            | BookCode::Ez6
            | BookCode::Dag
            | BookCode::Ps3
            | BookCode::Ba2
            | BookCode::Lba
            | BookCode::Jub
            | BookCode::Eno
            | BookCode::Mq1
            | BookCode::Mq2
            | BookCode::Mq3
            | BookCode::Rep
            | BookCode::Ba4
            | BookCode::Lao => BookCategory::Deuterocanon,
            BookCode::Xxa
            | BookCode::Xxb
            | BookCode::Xxc
            | BookCode::Xxd
            | BookCode::Xxe
            | BookCode::Xxf
            | BookCode::Xxg
            | BookCode::Frt
            | BookCode::Bak
            | BookCode::Oth
            | BookCode::Int
            | BookCode::Cnc
            | BookCode::Glo
            | BookCode::Tdx
            | BookCode::Ndx => BookCategory::NonScripture,
            BookCode::Other(_) => BookCategory::Other,
    }
}

/// The Old Testament is the thirty-nine books from Genesis to Malachi, and the
/// New Testament the twenty-seven from Matthew to Revelation: a book is in
/// either exactly when it is one of these.
pub proof fn law_the_testaments_are_the_protestant_canon(code: BookCode)
    ensures
        spec_category(code) == BookCategory::OldTestament <==> (
            code == BookCode::Gen || code == BookCode::Exo || code == BookCode::Lev ||
            code == BookCode::Num || code == BookCode::Deu || code == BookCode::Jos ||
            code == BookCode::Jdg || code == BookCode::Rut || code == BookCode::Sa1 ||
            code == BookCode::Sa2 || code == BookCode::Ki1 || code == BookCode::Ki2 ||
            code == BookCode::Ch1 || code == BookCode::Ch2 || code == BookCode::Ezr ||
            code == BookCode::Neh || code == BookCode::Est || code == BookCode::Job ||
            code == BookCode::Psa || code == BookCode::Pro || code == BookCode::Ecc ||
            code == BookCode::Sng || code == BookCode::Isa || code == BookCode::Jer ||
            code == BookCode::Lam || code == BookCode::Ezk || code == BookCode::Dan ||
            code == BookCode::Hos || code == BookCode::Jol || code == BookCode::Amo ||
            code == BookCode::Oba || code == BookCode::Jon || code == BookCode::Mic ||
            code == BookCode::Nam || code == BookCode::Hab || code == BookCode::Zep ||
            code == BookCode::Hag || code == BookCode::Zec || code == BookCode::Mal
        ),
        spec_category(code) == BookCategory::NewTestament <==> (
            code == BookCode::Mat || code == BookCode::Mrk || code == BookCode::Luk ||
            code == BookCode::Jhn || code == BookCode::Act || code == BookCode::Rom ||
            code == BookCode::Co1 || code == BookCode::Co2 || code == BookCode::Gal ||
            code == BookCode::Eph || code == BookCode::Php || code == BookCode::Col ||
            code == BookCode::Th1 || code == BookCode::Th2 || code == BookCode::Ti1 ||
            code == BookCode::Ti2 || code == BookCode::Tit || code == BookCode::Phm ||
            code == BookCode::Heb || code == BookCode::Jas || code == BookCode::Pe1 ||
            code == BookCode::Pe2 || code == BookCode::Jn1 || code == BookCode::Jn2 ||
            code == BookCode::Jn3 || code == BookCode::Jud || code == BookCode::Rev
        ),
{
}

/// The three characters USX writes in `book@code`.
pub open spec fn code_text(code: BookCode) -> Seq<char> {
    match code {
            BookCode::Gen => "GEN"@,
            BookCode::Exo => "EXO"@,
            BookCode::Lev => "LEV"@,
            BookCode::Num => "NUM"@,
            BookCode::Deu => "DEU"@,
            BookCode::Jos => "JOS"@,
            BookCode::Jdg => "JDG"@,
            BookCode::Rut => "RUT"@,
            BookCode::Sa1 => "1SA"@,
            BookCode::Sa2 => "2SA"@,
            BookCode::Ki1 => "1KI"@,
            BookCode::Ki2 => "2KI"@,
            BookCode::Ch1 => "1CH"@,
            BookCode::Ch2 => "2CH"@,
            BookCode::Ezr => "EZR"@,
            BookCode::Neh => "NEH"@,
            BookCode::Est => "EST"@,
            BookCode::Job => "JOB"@,
            BookCode::Psa => "PSA"@,
            BookCode::Pro => "PRO"@,
            BookCode::Ecc => "ECC"@,
            BookCode::Sng => "SNG"@,
            BookCode::Isa => "ISA"@,
            BookCode::Jer => "JER"@,
            BookCode::Lam => "LAM"@,
            BookCode::Ezk => "EZK"@,
            BookCode::Dan => "DAN"@,
            BookCode::Hos => "HOS"@,
            BookCode::Jol => "JOL"@,
            BookCode::Amo => "AMO"@,
            BookCode::Oba => "OBA"@,
            BookCode::Jon => "JON"@,
            BookCode::Mic => "MIC"@,
            BookCode::Nam => "NAM"@,
            BookCode::Hab => "HAB"@,
            BookCode::Zep => "ZEP"@,
            BookCode::Hag => "HAG"@,
            BookCode::Zec => "ZEC"@,
            BookCode::Mal => "MAL"@,
            BookCode::Mat => "MAT"@,
            BookCode::Mrk => "MRK"@,
            BookCode::Luk => "LUK"@,
            BookCode::Jhn => "JHN"@,
            BookCode::Act => "ACT"@,
            BookCode::Rom => "ROM"@,
            BookCode::Co1 => "1CO"@,
            BookCode::Co2 => "2CO"@,
            BookCode::Gal => "GAL"@,
            BookCode::Eph => "EPH"@,
            BookCode::Php => "PHP"@,
            BookCode::Col => "COL"@,
            BookCode::Th1 => "1TH"@,
            BookCode::Th2 => "2TH"@,
            BookCode::Ti1 => "1TI"@,
            BookCode::Ti2 => "2TI"@,
            BookCode::Tit => "TIT"@,
            BookCode::Phm => "PHM"@,
            BookCode::Heb => "HEB"@,
            BookCode::Jas => "JAS"@,
            BookCode::Pe1 => "1PE"@,
            BookCode::Pe2 => "2PE"@,
            BookCode::Jn1 => "1JN"@,
            BookCode::Jn2 => "2JN"@,
            BookCode::Jn3 => "3JN"@,
            BookCode::Jud => "JUD"@,
            BookCode::Rev => "REV"@,
            BookCode::Tob => "TOB"@,
            BookCode::Jdt => "JDT"@,
            BookCode::Esg => "ESG"@,
            BookCode::Wis => "WIS"@,
            BookCode::Sir => "SIR"@,
            BookCode::Bar => "BAR"@,
            BookCode::Lje => "LJE"@,
            BookCode::S3y => "S3Y"@,
            BookCode::Sus => "SUS"@,
            BookCode::Bel => "BEL"@,
            BookCode::Ma1 => "1MA"@,
            BookCode::Ma2 => "2MA"@,
            BookCode::Ma3 => "3MA"@,
            BookCode::Ma4 => "4MA"@,
            BookCode::Es1 => "1ES"@,
            BookCode::Es2 => "2ES"@,
            BookCode::Man => "MAN"@,
            BookCode::Ps2 => "PS2"@,
            BookCode::Oda => "ODA"@,
            BookCode::Pss => "PSS"@,
            BookCode::Eza => "EZA"@,
            BookCode::Ez5 => "5EZ"@,
            BookCode::Ez6 => "6EZ"@,
            BookCode::Dag => "DAG"@,
            BookCode::Ps3 => "PS3"@,
            BookCode::Ba2 => "2BA"@,
            BookCode::Lba => "LBA"@,
            BookCode::Jub => "JUB"@,
            BookCode::Eno => "ENO"@,
            BookCode::Mq1 => "1MQ"@,
            BookCode::Mq2 => "2MQ"@,
            BookCode::Mq3 => "3MQ"@,
            BookCode::Rep => "REP"@,
            BookCode::Ba4 => "4BA"@,
            BookCode::Lao => "LAO"@,
            BookCode::Xxa => "XXA"@,
            BookCode::Xxb => "XXB"@,
            BookCode::Xxc => "XXC"@,
            BookCode::Xxd => "XXD"@,
            BookCode::Xxe => "XXE"@,
            BookCode::Xxf => "XXF"@,
            BookCode::Xxg => "XXG"@,
            BookCode::Frt => "FRT"@,
            BookCode::Bak => "BAK"@,
            BookCode::Oth => "OTH"@,
            BookCode::Int => "INT"@,
            BookCode::Cnc => "CNC"@,
            BookCode::Glo => "GLO"@,
            BookCode::Tdx => "TDX"@,
            BookCode::Ndx => "NDX"@,
            BookCode::Other(bytes) => seq![bytes[0] as char, bytes[1] as char, bytes[2] as char],
    }
}

/// A three-character text as one number, which tells texts apart.
pub open spec fn code_key(text: Seq<char>) -> int {
    (text[0] as int) * 65536 + (text[1] as int) * 256 + (text[2] as int)
}

/// A listed book's code reads back as that book: the table of codes and
/// the table that reads them are inverse.
#[verifier::rlimit(100)]
#[verifier::spinoff_prover]
pub proof fn law_a_listed_code_reads_back(code: BookCode)
    requires
        !(code is Other),
    ensures
        listed_from_text(code_text(code)) == Some(code),
{
    reveal_strlit("GEN");
    reveal_strlit("EXO");
    reveal_strlit("LEV");
    reveal_strlit("NUM");
    reveal_strlit("DEU");
    reveal_strlit("JOS");
    reveal_strlit("JDG");
    reveal_strlit("RUT");
    reveal_strlit("1SA");
    reveal_strlit("2SA");
    reveal_strlit("1KI");
    reveal_strlit("2KI");
    reveal_strlit("1CH");
    reveal_strlit("2CH");
    reveal_strlit("EZR");
    reveal_strlit("NEH");
    reveal_strlit("EST");
    reveal_strlit("JOB");
    reveal_strlit("PSA");
    reveal_strlit("PRO");
    reveal_strlit("ECC");
    reveal_strlit("SNG");
    reveal_strlit("ISA");
    reveal_strlit("JER");
    reveal_strlit("LAM");
    reveal_strlit("EZK");
    reveal_strlit("DAN");
    reveal_strlit("HOS");
    reveal_strlit("JOL");
    reveal_strlit("AMO");
    reveal_strlit("OBA");
    reveal_strlit("JON");
    reveal_strlit("MIC");
    reveal_strlit("NAM");
    reveal_strlit("HAB");
    reveal_strlit("ZEP");
    reveal_strlit("HAG");
    reveal_strlit("ZEC");
    reveal_strlit("MAL");
    reveal_strlit("MAT");
    reveal_strlit("MRK");
    reveal_strlit("LUK");
    reveal_strlit("JHN");
    reveal_strlit("ACT");
    reveal_strlit("ROM");
    reveal_strlit("1CO");
    reveal_strlit("2CO");
    reveal_strlit("GAL");
    reveal_strlit("EPH");
    reveal_strlit("PHP");
    reveal_strlit("COL");
    reveal_strlit("1TH");
    reveal_strlit("2TH");
    reveal_strlit("1TI");
    reveal_strlit("2TI");
    reveal_strlit("TIT");
    reveal_strlit("PHM");
    reveal_strlit("HEB");
    reveal_strlit("JAS");
    reveal_strlit("1PE");
    reveal_strlit("2PE");
    reveal_strlit("1JN");
    reveal_strlit("2JN");
    reveal_strlit("3JN");
    reveal_strlit("JUD");
    reveal_strlit("REV");
    reveal_strlit("TOB");
    reveal_strlit("JDT");
    reveal_strlit("ESG");
    reveal_strlit("WIS");
    reveal_strlit("SIR");
    reveal_strlit("BAR");
    reveal_strlit("LJE");
    reveal_strlit("S3Y");
    reveal_strlit("SUS");
    reveal_strlit("BEL");
    reveal_strlit("1MA");
    reveal_strlit("2MA");
    reveal_strlit("3MA");
    reveal_strlit("4MA");
    reveal_strlit("1ES");
    reveal_strlit("2ES");
    reveal_strlit("MAN");
    reveal_strlit("PS2");
    reveal_strlit("ODA");
    reveal_strlit("PSS");
    reveal_strlit("EZA");
    reveal_strlit("5EZ");
    reveal_strlit("6EZ");
    reveal_strlit("DAG");
    reveal_strlit("PS3");
    reveal_strlit("2BA");
    reveal_strlit("LBA");
    reveal_strlit("JUB");
    reveal_strlit("ENO");
    reveal_strlit("1MQ");
    reveal_strlit("2MQ");
    reveal_strlit("3MQ");
    reveal_strlit("REP");
    reveal_strlit("4BA");
    reveal_strlit("LAO");
    reveal_strlit("XXA");
    reveal_strlit("XXB");
    reveal_strlit("XXC");
    reveal_strlit("XXD");
    reveal_strlit("XXE");
    reveal_strlit("XXF");
    reveal_strlit("XXG");
    reveal_strlit("FRT");
    reveal_strlit("BAK");
    reveal_strlit("OTH");
    reveal_strlit("INT");
    reveal_strlit("CNC");
    reveal_strlit("GLO");
    reveal_strlit("TDX");
    reveal_strlit("NDX");
    assert(code_key("GEN"@) == 4670798);
    assert(code_key("EXO"@) == 4544591);
    assert(code_key("LEV"@) == 4998486);
    assert(code_key("NUM"@) == 5133645);
    assert(code_key("DEU"@) == 4474197);
    assert(code_key("JOS"@) == 4869971);
    assert(code_key("JDG"@) == 4867143);
    assert(code_key("RUT"@) == 5395796);
    assert(code_key("1SA"@) == 3232577);
    assert(code_key("2SA"@) == 3298113);
    assert(code_key("1KI"@) == 3230537);
    assert(code_key("2KI"@) == 3296073);
    assert(code_key("1CH"@) == 3228488);
    assert(code_key("2CH"@) == 3294024);
    assert(code_key("EZR"@) == 4545106);
    assert(code_key("NEH"@) == 5129544);
    assert(code_key("EST"@) == 4543316);
    assert(code_key("JOB"@) == 4869954);
    assert(code_key("PSA"@) == 5264193);
    assert(code_key("PRO"@) == 5263951);
    assert(code_key("ECC"@) == 4539203);
    assert(code_key("SNG"@) == 5459527);
    assert(code_key("ISA"@) == 4805441);
    assert(code_key("JER"@) == 4867410);
    assert(code_key("LAM"@) == 4997453);
    assert(code_key("EZK"@) == 4545099);
    assert(code_key("DAN"@) == 4473166);
    assert(code_key("HOS"@) == 4738899);
    assert(code_key("JOL"@) == 4869964);
    assert(code_key("AMO"@) == 4279631);
    assert(code_key("OBA"@) == 5194305);
    assert(code_key("JON"@) == 4869966);
    assert(code_key("MIC"@) == 5065027);
    assert(code_key("NAM"@) == 5128525);
    assert(code_key("HAB"@) == 4735298);
    assert(code_key("ZEP"@) == 5915984);
    assert(code_key("HAG"@) == 4735303);
    assert(code_key("ZEC"@) == 5915971);
    assert(code_key("MAL"@) == 5062988);
    assert(code_key("MAT"@) == 5062996);
    assert(code_key("MRK"@) == 5067339);
    assert(code_key("LUK"@) == 5002571);
    assert(code_key("JHN"@) == 4868174);
    assert(code_key("ACT"@) == 4277076);
    assert(code_key("ROM"@) == 5394253);
    assert(code_key("1CO"@) == 3228495);
    assert(code_key("2CO"@) == 3294031);
    assert(code_key("GAL"@) == 4669772);
    assert(code_key("EPH"@) == 4542536);
    assert(code_key("PHP"@) == 5261392);
    assert(code_key("COL"@) == 4411212);
    assert(code_key("1TH"@) == 3232840);
    assert(code_key("2TH"@) == 3298376);
    assert(code_key("1TI"@) == 3232841);
    assert(code_key("2TI"@) == 3298377);
    assert(code_key("TIT"@) == 5523796);
    assert(code_key("PHM"@) == 5261389);
    assert(code_key("HEB"@) == 4736322);
    assert(code_key("JAS"@) == 4866387);
    assert(code_key("1PE"@) == 3231813);
    assert(code_key("2PE"@) == 3297349);
    assert(code_key("1JN"@) == 3230286);
    assert(code_key("2JN"@) == 3295822);
    assert(code_key("3JN"@) == 3361358);
    assert(code_key("JUD"@) == 4871492);
    assert(code_key("REV"@) == 5391702);
    assert(code_key("TOB"@) == 5525314);
    assert(code_key("JDT"@) == 4867156);
    assert(code_key("ESG"@) == 4543303);
    assert(code_key("WIS"@) == 5720403);
    assert(code_key("SIR"@) == 5458258);
    assert(code_key("BAR"@) == 4342098);
    assert(code_key("LJE"@) == 4999749);
    assert(code_key("S3Y"@) == 5452633);
    assert(code_key("SUS"@) == 5461331);
    assert(code_key("BEL"@) == 4343116);
    assert(code_key("1MA"@) == 3231041);
    assert(code_key("2MA"@) == 3296577);
    assert(code_key("3MA"@) == 3362113);
    assert(code_key("4MA"@) == 3427649);
    assert(code_key("1ES"@) == 3229011);
    assert(code_key("2ES"@) == 3294547);
    assert(code_key("MAN"@) == 5062990);
    assert(code_key("PS2"@) == 5264178);
    assert(code_key("ODA"@) == 5194817);
    assert(code_key("PSS"@) == 5264211);
    assert(code_key("EZA"@) == 4545089);
    assert(code_key("5EZ"@) == 3491162);
    assert(code_key("6EZ"@) == 3556698);
    assert(code_key("DAG"@) == 4473159);
    assert(code_key("PS3"@) == 5264179);
    assert(code_key("2BA"@) == 3293761);
    assert(code_key("LBA"@) == 4997697);
    assert(code_key("JUB"@) == 4871490);
    assert(code_key("ENO"@) == 4542031);
    assert(code_key("1MQ"@) == 3231057);
    assert(code_key("2MQ"@) == 3296593);
    assert(code_key("3MQ"@) == 3362129);
    assert(code_key("REP"@) == 5391696);
    assert(code_key("4BA"@) == 3424833);
    assert(code_key("LAO"@) == 4997455);
    assert(code_key("XXA"@) == 5789761);
    assert(code_key("XXB"@) == 5789762);
    assert(code_key("XXC"@) == 5789763);
    assert(code_key("XXD"@) == 5789764);
    assert(code_key("XXE"@) == 5789765);
    assert(code_key("XXF"@) == 5789766);
    assert(code_key("XXG"@) == 5789767);
    assert(code_key("FRT"@) == 4608596);
    assert(code_key("BAK"@) == 4342091);
    assert(code_key("OTH"@) == 5198920);
    assert(code_key("INT"@) == 4804180);
    assert(code_key("CNC"@) == 4410947);
    assert(code_key("GLO"@) == 4672591);
    assert(code_key("TDX"@) == 5522520);
    assert(code_key("NDX"@) == 5129304);
    match code {
        BookCode::Gen => assert(listed_from_text(code_text(code)) == Some(BookCode::Gen)),
        BookCode::Exo => assert(listed_from_text(code_text(code)) == Some(BookCode::Exo)),
        BookCode::Lev => assert(listed_from_text(code_text(code)) == Some(BookCode::Lev)),
        BookCode::Num => assert(listed_from_text(code_text(code)) == Some(BookCode::Num)),
        BookCode::Deu => assert(listed_from_text(code_text(code)) == Some(BookCode::Deu)),
        BookCode::Jos => assert(listed_from_text(code_text(code)) == Some(BookCode::Jos)),
        BookCode::Jdg => assert(listed_from_text(code_text(code)) == Some(BookCode::Jdg)),
        BookCode::Rut => assert(listed_from_text(code_text(code)) == Some(BookCode::Rut)),
        BookCode::Sa1 => assert(listed_from_text(code_text(code)) == Some(BookCode::Sa1)),
        BookCode::Sa2 => assert(listed_from_text(code_text(code)) == Some(BookCode::Sa2)),
        BookCode::Ki1 => assert(listed_from_text(code_text(code)) == Some(BookCode::Ki1)),
        BookCode::Ki2 => assert(listed_from_text(code_text(code)) == Some(BookCode::Ki2)),
        BookCode::Ch1 => assert(listed_from_text(code_text(code)) == Some(BookCode::Ch1)),
        BookCode::Ch2 => assert(listed_from_text(code_text(code)) == Some(BookCode::Ch2)),
        BookCode::Ezr => assert(listed_from_text(code_text(code)) == Some(BookCode::Ezr)),
        BookCode::Neh => assert(listed_from_text(code_text(code)) == Some(BookCode::Neh)),
        BookCode::Est => assert(listed_from_text(code_text(code)) == Some(BookCode::Est)),
        BookCode::Job => assert(listed_from_text(code_text(code)) == Some(BookCode::Job)),
        BookCode::Psa => assert(listed_from_text(code_text(code)) == Some(BookCode::Psa)),
        BookCode::Pro => assert(listed_from_text(code_text(code)) == Some(BookCode::Pro)),
        BookCode::Ecc => assert(listed_from_text(code_text(code)) == Some(BookCode::Ecc)),
        BookCode::Sng => assert(listed_from_text(code_text(code)) == Some(BookCode::Sng)),
        BookCode::Isa => assert(listed_from_text(code_text(code)) == Some(BookCode::Isa)),
        BookCode::Jer => assert(listed_from_text(code_text(code)) == Some(BookCode::Jer)),
        BookCode::Lam => assert(listed_from_text(code_text(code)) == Some(BookCode::Lam)),
        BookCode::Ezk => assert(listed_from_text(code_text(code)) == Some(BookCode::Ezk)),
        BookCode::Dan => assert(listed_from_text(code_text(code)) == Some(BookCode::Dan)),
        BookCode::Hos => assert(listed_from_text(code_text(code)) == Some(BookCode::Hos)),
        BookCode::Jol => assert(listed_from_text(code_text(code)) == Some(BookCode::Jol)),
        BookCode::Amo => assert(listed_from_text(code_text(code)) == Some(BookCode::Amo)),
        BookCode::Oba => assert(listed_from_text(code_text(code)) == Some(BookCode::Oba)),
        BookCode::Jon => assert(listed_from_text(code_text(code)) == Some(BookCode::Jon)),
        BookCode::Mic => assert(listed_from_text(code_text(code)) == Some(BookCode::Mic)),
        BookCode::Nam => assert(listed_from_text(code_text(code)) == Some(BookCode::Nam)),
        BookCode::Hab => assert(listed_from_text(code_text(code)) == Some(BookCode::Hab)),
        BookCode::Zep => assert(listed_from_text(code_text(code)) == Some(BookCode::Zep)),
        BookCode::Hag => assert(listed_from_text(code_text(code)) == Some(BookCode::Hag)),
        BookCode::Zec => assert(listed_from_text(code_text(code)) == Some(BookCode::Zec)),
        BookCode::Mal => assert(listed_from_text(code_text(code)) == Some(BookCode::Mal)),
        BookCode::Mat => assert(listed_from_text(code_text(code)) == Some(BookCode::Mat)),
        BookCode::Mrk => assert(listed_from_text(code_text(code)) == Some(BookCode::Mrk)),
        BookCode::Luk => assert(listed_from_text(code_text(code)) == Some(BookCode::Luk)),
        BookCode::Jhn => assert(listed_from_text(code_text(code)) == Some(BookCode::Jhn)),
        BookCode::Act => assert(listed_from_text(code_text(code)) == Some(BookCode::Act)),
        BookCode::Rom => assert(listed_from_text(code_text(code)) == Some(BookCode::Rom)),
        BookCode::Co1 => assert(listed_from_text(code_text(code)) == Some(BookCode::Co1)),
        BookCode::Co2 => assert(listed_from_text(code_text(code)) == Some(BookCode::Co2)),
        BookCode::Gal => assert(listed_from_text(code_text(code)) == Some(BookCode::Gal)),
        BookCode::Eph => assert(listed_from_text(code_text(code)) == Some(BookCode::Eph)),
        BookCode::Php => assert(listed_from_text(code_text(code)) == Some(BookCode::Php)),
        BookCode::Col => assert(listed_from_text(code_text(code)) == Some(BookCode::Col)),
        BookCode::Th1 => assert(listed_from_text(code_text(code)) == Some(BookCode::Th1)),
        BookCode::Th2 => assert(listed_from_text(code_text(code)) == Some(BookCode::Th2)),
        BookCode::Ti1 => assert(listed_from_text(code_text(code)) == Some(BookCode::Ti1)),
        BookCode::Ti2 => assert(listed_from_text(code_text(code)) == Some(BookCode::Ti2)),
        BookCode::Tit => assert(listed_from_text(code_text(code)) == Some(BookCode::Tit)),
        BookCode::Phm => assert(listed_from_text(code_text(code)) == Some(BookCode::Phm)),
        BookCode::Heb => assert(listed_from_text(code_text(code)) == Some(BookCode::Heb)),
        BookCode::Jas => assert(listed_from_text(code_text(code)) == Some(BookCode::Jas)),
        BookCode::Pe1 => assert(listed_from_text(code_text(code)) == Some(BookCode::Pe1)),
        BookCode::Pe2 => assert(listed_from_text(code_text(code)) == Some(BookCode::Pe2)),
        BookCode::Jn1 => assert(listed_from_text(code_text(code)) == Some(BookCode::Jn1)),
        BookCode::Jn2 => assert(listed_from_text(code_text(code)) == Some(BookCode::Jn2)),
        BookCode::Jn3 => assert(listed_from_text(code_text(code)) == Some(BookCode::Jn3)),
        BookCode::Jud => assert(listed_from_text(code_text(code)) == Some(BookCode::Jud)),
        BookCode::Rev => assert(listed_from_text(code_text(code)) == Some(BookCode::Rev)),
        BookCode::Tob => assert(listed_from_text(code_text(code)) == Some(BookCode::Tob)),
        BookCode::Jdt => assert(listed_from_text(code_text(code)) == Some(BookCode::Jdt)),
        BookCode::Esg => assert(listed_from_text(code_text(code)) == Some(BookCode::Esg)),
        BookCode::Wis => assert(listed_from_text(code_text(code)) == Some(BookCode::Wis)),
        BookCode::Sir => assert(listed_from_text(code_text(code)) == Some(BookCode::Sir)),
        BookCode::Bar => assert(listed_from_text(code_text(code)) == Some(BookCode::Bar)),
        BookCode::Lje => assert(listed_from_text(code_text(code)) == Some(BookCode::Lje)),
        BookCode::S3y => assert(listed_from_text(code_text(code)) == Some(BookCode::S3y)),
        BookCode::Sus => assert(listed_from_text(code_text(code)) == Some(BookCode::Sus)),
        BookCode::Bel => assert(listed_from_text(code_text(code)) == Some(BookCode::Bel)),
        BookCode::Ma1 => assert(listed_from_text(code_text(code)) == Some(BookCode::Ma1)),
        BookCode::Ma2 => assert(listed_from_text(code_text(code)) == Some(BookCode::Ma2)),
        BookCode::Ma3 => assert(listed_from_text(code_text(code)) == Some(BookCode::Ma3)),
        BookCode::Ma4 => assert(listed_from_text(code_text(code)) == Some(BookCode::Ma4)),
        BookCode::Es1 => assert(listed_from_text(code_text(code)) == Some(BookCode::Es1)),
        BookCode::Es2 => assert(listed_from_text(code_text(code)) == Some(BookCode::Es2)),
        BookCode::Man => assert(listed_from_text(code_text(code)) == Some(BookCode::Man)),
        BookCode::Ps2 => assert(listed_from_text(code_text(code)) == Some(BookCode::Ps2)),
        BookCode::Oda => assert(listed_from_text(code_text(code)) == Some(BookCode::Oda)),
        BookCode::Pss => assert(listed_from_text(code_text(code)) == Some(BookCode::Pss)),
        BookCode::Eza => assert(listed_from_text(code_text(code)) == Some(BookCode::Eza)),
        BookCode::Ez5 => assert(listed_from_text(code_text(code)) == Some(BookCode::Ez5)),
        BookCode::Ez6 => assert(listed_from_text(code_text(code)) == Some(BookCode::Ez6)),
        BookCode::Dag => assert(listed_from_text(code_text(code)) == Some(BookCode::Dag)),
        BookCode::Ps3 => assert(listed_from_text(code_text(code)) == Some(BookCode::Ps3)),
        BookCode::Ba2 => assert(listed_from_text(code_text(code)) == Some(BookCode::Ba2)),
        BookCode::Lba => assert(listed_from_text(code_text(code)) == Some(BookCode::Lba)),
        BookCode::Jub => assert(listed_from_text(code_text(code)) == Some(BookCode::Jub)),
        BookCode::Eno => assert(listed_from_text(code_text(code)) == Some(BookCode::Eno)),
        BookCode::Mq1 => assert(listed_from_text(code_text(code)) == Some(BookCode::Mq1)),
        BookCode::Mq2 => assert(listed_from_text(code_text(code)) == Some(BookCode::Mq2)),
        BookCode::Mq3 => assert(listed_from_text(code_text(code)) == Some(BookCode::Mq3)),
        BookCode::Rep => assert(listed_from_text(code_text(code)) == Some(BookCode::Rep)),
        BookCode::Ba4 => assert(listed_from_text(code_text(code)) == Some(BookCode::Ba4)),
        BookCode::Lao => assert(listed_from_text(code_text(code)) == Some(BookCode::Lao)),
        BookCode::Xxa => assert(listed_from_text(code_text(code)) == Some(BookCode::Xxa)),
        BookCode::Xxb => assert(listed_from_text(code_text(code)) == Some(BookCode::Xxb)),
        BookCode::Xxc => assert(listed_from_text(code_text(code)) == Some(BookCode::Xxc)),
        BookCode::Xxd => assert(listed_from_text(code_text(code)) == Some(BookCode::Xxd)),
        BookCode::Xxe => assert(listed_from_text(code_text(code)) == Some(BookCode::Xxe)),
        BookCode::Xxf => assert(listed_from_text(code_text(code)) == Some(BookCode::Xxf)),
        BookCode::Xxg => assert(listed_from_text(code_text(code)) == Some(BookCode::Xxg)),
        BookCode::Frt => assert(listed_from_text(code_text(code)) == Some(BookCode::Frt)),
        BookCode::Bak => assert(listed_from_text(code_text(code)) == Some(BookCode::Bak)),
        BookCode::Oth => assert(listed_from_text(code_text(code)) == Some(BookCode::Oth)),
        BookCode::Int => assert(listed_from_text(code_text(code)) == Some(BookCode::Int)),
        BookCode::Cnc => assert(listed_from_text(code_text(code)) == Some(BookCode::Cnc)),
        BookCode::Glo => assert(listed_from_text(code_text(code)) == Some(BookCode::Glo)),
        BookCode::Tdx => assert(listed_from_text(code_text(code)) == Some(BookCode::Tdx)),
        BookCode::Ndx => assert(listed_from_text(code_text(code)) == Some(BookCode::Ndx)),
        BookCode::Other(_) => {},
    }
}

/// The listed book whose code is `text`, if any.
pub open spec fn listed_from_text(text: Seq<char>) -> Option<BookCode> {
    if text == "GEN"@ { Some(BookCode::Gen) } else
    if text == "EXO"@ { Some(BookCode::Exo) } else
    if text == "LEV"@ { Some(BookCode::Lev) } else
    if text == "NUM"@ { Some(BookCode::Num) } else
    if text == "DEU"@ { Some(BookCode::Deu) } else
    if text == "JOS"@ { Some(BookCode::Jos) } else
    if text == "JDG"@ { Some(BookCode::Jdg) } else
    if text == "RUT"@ { Some(BookCode::Rut) } else
    if text == "1SA"@ { Some(BookCode::Sa1) } else
    if text == "2SA"@ { Some(BookCode::Sa2) } else
    if text == "1KI"@ { Some(BookCode::Ki1) } else
    if text == "2KI"@ { Some(BookCode::Ki2) } else
    if text == "1CH"@ { Some(BookCode::Ch1) } else
    if text == "2CH"@ { Some(BookCode::Ch2) } else
    if text == "EZR"@ { Some(BookCode::Ezr) } else
    if text == "NEH"@ { Some(BookCode::Neh) } else
    if text == "EST"@ { Some(BookCode::Est) } else
    if text == "JOB"@ { Some(BookCode::Job) } else
    if text == "PSA"@ { Some(BookCode::Psa) } else
    if text == "PRO"@ { Some(BookCode::Pro) } else
    if text == "ECC"@ { Some(BookCode::Ecc) } else
    if text == "SNG"@ { Some(BookCode::Sng) } else
    if text == "ISA"@ { Some(BookCode::Isa) } else
    if text == "JER"@ { Some(BookCode::Jer) } else
    if text == "LAM"@ { Some(BookCode::Lam) } else
    if text == "EZK"@ { Some(BookCode::Ezk) } else
    if text == "DAN"@ { Some(BookCode::Dan) } else
    if text == "HOS"@ { Some(BookCode::Hos) } else
    if text == "JOL"@ { Some(BookCode::Jol) } else
    if text == "AMO"@ { Some(BookCode::Amo) } else
    if text == "OBA"@ { Some(BookCode::Oba) } else
    if text == "JON"@ { Some(BookCode::Jon) } else
    if text == "MIC"@ { Some(BookCode::Mic) } else
    if text == "NAM"@ { Some(BookCode::Nam) } else
    if text == "HAB"@ { Some(BookCode::Hab) } else
    if text == "ZEP"@ { Some(BookCode::Zep) } else
    if text == "HAG"@ { Some(BookCode::Hag) } else
    if text == "ZEC"@ { Some(BookCode::Zec) } else
    if text == "MAL"@ { Some(BookCode::Mal) } else
    if text == "MAT"@ { Some(BookCode::Mat) } else
    if text == "MRK"@ { Some(BookCode::Mrk) } else
    if text == "LUK"@ { Some(BookCode::Luk) } else
    if text == "JHN"@ { Some(BookCode::Jhn) } else
    if text == "ACT"@ { Some(BookCode::Act) } else
    if text == "ROM"@ { Some(BookCode::Rom) } else
    if text == "1CO"@ { Some(BookCode::Co1) } else
    if text == "2CO"@ { Some(BookCode::Co2) } else
    if text == "GAL"@ { Some(BookCode::Gal) } else
    if text == "EPH"@ { Some(BookCode::Eph) } else
    if text == "PHP"@ { Some(BookCode::Php) } else
    if text == "COL"@ { Some(BookCode::Col) } else
    if text == "1TH"@ { Some(BookCode::Th1) } else
    if text == "2TH"@ { Some(BookCode::Th2) } else
    if text == "1TI"@ { Some(BookCode::Ti1) } else
    if text == "2TI"@ { Some(BookCode::Ti2) } else
    if text == "TIT"@ { Some(BookCode::Tit) } else
    if text == "PHM"@ { Some(BookCode::Phm) } else
    if text == "HEB"@ { Some(BookCode::Heb) } else
    if text == "JAS"@ { Some(BookCode::Jas) } else
    if text == "1PE"@ { Some(BookCode::Pe1) } else
    if text == "2PE"@ { Some(BookCode::Pe2) } else
    if text == "1JN"@ { Some(BookCode::Jn1) } else
    if text == "2JN"@ { Some(BookCode::Jn2) } else
    if text == "3JN"@ { Some(BookCode::Jn3) } else
    if text == "JUD"@ { Some(BookCode::Jud) } else
    if text == "REV"@ { Some(BookCode::Rev) } else
    if text == "TOB"@ { Some(BookCode::Tob) } else
    if text == "JDT"@ { Some(BookCode::Jdt) } else
    if text == "ESG"@ { Some(BookCode::Esg) } else
    if text == "WIS"@ { Some(BookCode::Wis) } else
    if text == "SIR"@ { Some(BookCode::Sir) } else
    if text == "BAR"@ { Some(BookCode::Bar) } else
    if text == "LJE"@ { Some(BookCode::Lje) } else
    if text == "S3Y"@ { Some(BookCode::S3y) } else
    if text == "SUS"@ { Some(BookCode::Sus) } else
    if text == "BEL"@ { Some(BookCode::Bel) } else
    if text == "1MA"@ { Some(BookCode::Ma1) } else
    if text == "2MA"@ { Some(BookCode::Ma2) } else
    if text == "3MA"@ { Some(BookCode::Ma3) } else
    if text == "4MA"@ { Some(BookCode::Ma4) } else
    if text == "1ES"@ { Some(BookCode::Es1) } else
    if text == "2ES"@ { Some(BookCode::Es2) } else
    if text == "MAN"@ { Some(BookCode::Man) } else
    if text == "PS2"@ { Some(BookCode::Ps2) } else
    if text == "ODA"@ { Some(BookCode::Oda) } else
    if text == "PSS"@ { Some(BookCode::Pss) } else
    if text == "EZA"@ { Some(BookCode::Eza) } else
    if text == "5EZ"@ { Some(BookCode::Ez5) } else
    if text == "6EZ"@ { Some(BookCode::Ez6) } else
    if text == "DAG"@ { Some(BookCode::Dag) } else
    if text == "PS3"@ { Some(BookCode::Ps3) } else
    if text == "2BA"@ { Some(BookCode::Ba2) } else
    if text == "LBA"@ { Some(BookCode::Lba) } else
    if text == "JUB"@ { Some(BookCode::Jub) } else
    if text == "ENO"@ { Some(BookCode::Eno) } else
    if text == "1MQ"@ { Some(BookCode::Mq1) } else
    if text == "2MQ"@ { Some(BookCode::Mq2) } else
    if text == "3MQ"@ { Some(BookCode::Mq3) } else
    if text == "REP"@ { Some(BookCode::Rep) } else
    if text == "4BA"@ { Some(BookCode::Ba4) } else
    if text == "LAO"@ { Some(BookCode::Lao) } else
    if text == "XXA"@ { Some(BookCode::Xxa) } else
    if text == "XXB"@ { Some(BookCode::Xxb) } else
    if text == "XXC"@ { Some(BookCode::Xxc) } else
    if text == "XXD"@ { Some(BookCode::Xxd) } else
    if text == "XXE"@ { Some(BookCode::Xxe) } else
    if text == "XXF"@ { Some(BookCode::Xxf) } else
    if text == "XXG"@ { Some(BookCode::Xxg) } else
    if text == "FRT"@ { Some(BookCode::Frt) } else
    if text == "BAK"@ { Some(BookCode::Bak) } else
    if text == "OTH"@ { Some(BookCode::Oth) } else
    if text == "INT"@ { Some(BookCode::Int) } else
    if text == "CNC"@ { Some(BookCode::Cnc) } else
    if text == "GLO"@ { Some(BookCode::Glo) } else
    if text == "TDX"@ { Some(BookCode::Tdx) } else
    if text == "NDX"@ { Some(BookCode::Ndx) } else
    { None }
}

/// What the well-formed but unlisted code `text` is kept as.
pub open spec fn other_from_text(text: Seq<char>) -> BookCode {
    BookCode::Other([text[0] as u8, text[1] as u8, text[2] as u8])
}

/// A book code from its upper-cased text: the listed book, else the
/// catch-all pattern's `Other`, else an error.
pub open spec fn code_from_upper(text: Seq<char>) -> Result<BookCode, UnknownBookCodeError> {
    match listed_from_text(text) {
        Some(code) => Ok(code),
        None => if well_formed_code(text) {
            Ok(other_from_text(text))
        } else {
            Err(UnknownBookCodeError)
        },
    }
}

/// The error of a code that matches no listed book and not the pattern.
#[derive(Debug, Clone, Copy, PartialEq, Eq, Structural)]
pub struct UnknownBookCodeError;

/// The result of `str::to_uppercase` on the characters of a string.
pub uninterp spec fn uppercase(text: Seq<char>) -> Seq<char>;

/// An ASCII letter in upper case; any other character as it is.
pub open spec fn ascii_upper_char(c: char) -> char {
    if 'a' <= c && c <= 'z' {
        ((c as u32) - 32) as char
    } else {
        c
    }
}

/// Whether every character of `s` is ASCII.
pub open spec fn is_ascii_text(s: Seq<char>) -> bool {
    forall|i: int| 0 <= i < s.len() ==> (#[trigger] s[i] as u32) < 128
}

/// `str::to_uppercase`: the string with every character mapped to its
/// Unicode upper case, named [`uppercase`]. On ASCII text that is `a`–`z`
/// mapped to `A`–`Z` and everything else kept, as the documentation says of
/// ASCII characters, whose Unicode upper case is their ASCII one.
#[verifier::external_body]
fn to_uppercase(text: &str) -> (upper: String)
    ensures
        upper@ == uppercase(text@),
        is_ascii_text(text@) ==> upper@ == text@.map_values(|c: char| ascii_upper_char(c)),
{
    text.to_uppercase()
}

/// `std::str::from_utf8` on three ASCII bytes: the string whose characters
/// are those bytes.
#[verifier::external_body]
fn ascii_str(bytes: &[u8; 3]) -> (text: &str)
    requires
        bytes[0] < 128,
        bytes[1] < 128,
        bytes[2] < 128,
    ensures
        text@ == seq![bytes[0] as char, bytes[1] as char, bytes[2] as char],
{
    std::str::from_utf8(bytes).unwrap()
}

impl BookCode {
    /// Whether this code's bytes are ASCII, which every code this type can
    /// build has.
    pub open spec fn wf(self) -> bool {
        match self {
            BookCode::Other(bytes) => bytes[0] < 128 && bytes[1] < 128 && bytes[2] < 128,
            _ => true,
        }
    }

    pub fn category(&self) -> (category: BookCategory)
        ensures
            category == spec_category(*self),
    {
        match self {
            BookCode::Gen
            | BookCode::Exo
            | BookCode::Lev
            | BookCode::Num
            | BookCode::Deu
            | BookCode::Jos
            | BookCode::Jdg
            | BookCode::Rut
            | BookCode::Sa1
            | BookCode::Sa2
            | BookCode::Ki1
            | BookCode::Ki2
            | BookCode::Ch1
            | BookCode::Ch2
            | BookCode::Ezr
            | BookCode::Neh
            | BookCode::Est
            | BookCode::Job
            | BookCode::Psa
            | BookCode::Pro
            | BookCode::Ecc
            | BookCode::Sng
            | BookCode::Isa
            | BookCode::Jer
            | BookCode::Lam
            | BookCode::Ezk
            | BookCode::Dan
            | BookCode::Hos
            | BookCode::Jol
            | BookCode::Amo
            | BookCode::Oba
            | BookCode::Jon
            | BookCode::Mic
            | BookCode::Nam
            | BookCode::Hab
            | BookCode::Zep
            | BookCode::Hag
            | BookCode::Zec
            | BookCode::Mal => BookCategory::OldTestament,
            BookCode::Mat
            | BookCode::Mrk
            | BookCode::Luk
            | BookCode::Jhn
            | BookCode::Act
            | BookCode::Rom
            | BookCode::Co1
            | BookCode::Co2
            | BookCode::Gal
            | BookCode::Eph
            | BookCode::Php
            | BookCode::Col
            | BookCode::Th1
            | BookCode::Th2
            | BookCode::Ti1
            | BookCode::Ti2
            | BookCode::Tit
            | BookCode::Phm
            | BookCode::Heb
            | BookCode::Jas
            | BookCode::Pe1
            | BookCode::Pe2
            | BookCode::Jn1
            | BookCode::Jn2
            | BookCode::Jn3
            | BookCode::Jud
            | BookCode::Rev => BookCategory::NewTestament,
            BookCode::Tob
            | BookCode::Jdt
            | BookCode::Esg
            | BookCode::Wis
            | BookCode::Sir
            | BookCode::Bar
            | BookCode::Lje
            | BookCode::S3y
            | BookCode::Sus
            | BookCode::Bel
            | BookCode::Ma1
            | BookCode::Ma2
            | BookCode::Ma3
            | BookCode::Ma4
            | BookCode::Es1
            | BookCode::Es2
            | BookCode::Man
            | BookCode::Ps2
            | BookCode::Oda
            | BookCode::Pss
            | BookCode::Eza
            | BookCode::Ez5
            | BookCode::Ez6
            | BookCode::Dag
            | BookCode::Ps3
            | BookCode::Ba2
            | BookCode::Lba
            | BookCode::Jub
            | BookCode::Eno
            | BookCode::Mq1
            | BookCode::Mq2
            | BookCode::Mq3
            | BookCode::Rep
            | BookCode::Ba4
            | BookCode::Lao => BookCategory::Deuterocanon,
            BookCode::Xxa
            | BookCode::Xxb
            | BookCode::Xxc
            | BookCode::Xxd
            | BookCode::Xxe
            | BookCode::Xxf
            | BookCode::Xxg
            | BookCode::Frt
            | BookCode::Bak
            | BookCode::Oth
            | BookCode::Int
            | BookCode::Cnc
            | BookCode::Glo
            | BookCode::Tdx
            | BookCode::Ndx => BookCategory::NonScripture,
            BookCode::Other(_) => BookCategory::Other,
        }
    }

    pub fn is_old_testament(&self) -> (b: bool)
        ensures
            b == (spec_category(*self) == BookCategory::OldTestament),
    {
        self.category() == BookCategory::OldTestament
    }

    pub fn is_new_testament(&self) -> (b: bool)
        ensures
            b == (spec_category(*self) == BookCategory::NewTestament),
    {
        self.category() == BookCategory::NewTestament
    }

    pub fn is_deuterocanon(&self) -> (b: bool)
        ensures
            b == (spec_category(*self) == BookCategory::Deuterocanon),
    {
        self.category() == BookCategory::Deuterocanon
    }

    pub fn is_non_scripture(&self) -> (b: bool)
        ensures
            b == (spec_category(*self) == BookCategory::NonScripture),
    {
        self.category() == BookCategory::NonScripture
    }

    /// Whether this code is one of the listed books rather than `Other`.
    pub fn is_listed(&self) -> (b: bool)
        ensures
            b == !(*self is Other),
    {
        !matches!(self, BookCode::Other(_))
    }

    /// The three-character code, as USX writes it in `book@code`.
    pub fn as_str(&self) -> (text: &str)
        requires
            self.wf(),
        ensures
            text@ == code_text(*self),
    {
        match self {
            BookCode::Gen => "GEN",
            BookCode::Exo => "EXO",
            BookCode::Lev => "LEV",
            BookCode::Num => "NUM",
            BookCode::Deu => "DEU",
            BookCode::Jos => "JOS",
            BookCode::Jdg => "JDG",
            BookCode::Rut => "RUT",
            BookCode::Sa1 => "1SA",
            BookCode::Sa2 => "2SA",
            BookCode::Ki1 => "1KI",
            BookCode::Ki2 => "2KI",
            BookCode::Ch1 => "1CH",
            BookCode::Ch2 => "2CH",
            BookCode::Ezr => "EZR",
            BookCode::Neh => "NEH",
            BookCode::Est => "EST",
            BookCode::Job => "JOB",
            BookCode::Psa => "PSA",
            BookCode::Pro => "PRO",
            BookCode::Ecc => "ECC",
            BookCode::Sng => "SNG",
            BookCode::Isa => "ISA",
            BookCode::Jer => "JER",
            BookCode::Lam => "LAM",
            BookCode::Ezk => "EZK",
            BookCode::Dan => "DAN",
            BookCode::Hos => "HOS",
            BookCode::Jol => "JOL",
            BookCode::Amo => "AMO",
            BookCode::Oba => "OBA",
            BookCode::Jon => "JON",
            BookCode::Mic => "MIC",
            BookCode::Nam => "NAM",
            BookCode::Hab => "HAB",
            BookCode::Zep => "ZEP",
            BookCode::Hag => "HAG",
            BookCode::Zec => "ZEC",
            BookCode::Mal => "MAL",
            BookCode::Mat => "MAT",
            BookCode::Mrk => "MRK",
            BookCode::Luk => "LUK",
            BookCode::Jhn => "JHN",
            BookCode::Act => "ACT",
            BookCode::Rom => "ROM",
            BookCode::Co1 => "1CO",
            BookCode::Co2 => "2CO",
            BookCode::Gal => "GAL",
            BookCode::Eph => "EPH",
            BookCode::Php => "PHP",
            BookCode::Col => "COL",
            BookCode::Th1 => "1TH",
            BookCode::Th2 => "2TH",
            BookCode::Ti1 => "1TI",
            BookCode::Ti2 => "2TI",
            BookCode::Tit => "TIT",
            BookCode::Phm => "PHM",
            BookCode::Heb => "HEB",
            BookCode::Jas => "JAS",
            BookCode::Pe1 => "1PE",
            BookCode::Pe2 => "2PE",
            BookCode::Jn1 => "1JN",
            BookCode::Jn2 => "2JN",
            BookCode::Jn3 => "3JN",
            BookCode::Jud => "JUD",
            BookCode::Rev => "REV",
            BookCode::Tob => "TOB",
            BookCode::Jdt => "JDT",
            BookCode::Esg => "ESG",
            BookCode::Wis => "WIS",
            BookCode::Sir => "SIR",
            BookCode::Bar => "BAR",
            BookCode::Lje => "LJE",
            BookCode::S3y => "S3Y",
            BookCode::Sus => "SUS",
            BookCode::Bel => "BEL",
            BookCode::Ma1 => "1MA",
            BookCode::Ma2 => "2MA",
            BookCode::Ma3 => "3MA",
            BookCode::Ma4 => "4MA",
            BookCode::Es1 => "1ES",
            BookCode::Es2 => "2ES",
            BookCode::Man => "MAN",
            BookCode::Ps2 => "PS2",
            BookCode::Oda => "ODA",
            BookCode::Pss => "PSS",
            BookCode::Eza => "EZA",
            BookCode::Ez5 => "5EZ",
            BookCode::Ez6 => "6EZ",
            BookCode::Dag => "DAG",
            BookCode::Ps3 => "PS3",
            BookCode::Ba2 => "2BA",
            BookCode::Lba => "LBA",
            BookCode::Jub => "JUB",
            BookCode::Eno => "ENO",
            BookCode::Mq1 => "1MQ",
            BookCode::Mq2 => "2MQ",
            BookCode::Mq3 => "3MQ",
            BookCode::Rep => "REP",
            BookCode::Ba4 => "4BA",
            BookCode::Lao => "LAO",
            BookCode::Xxa => "XXA",
            BookCode::Xxb => "XXB",
            BookCode::Xxc => "XXC",
            BookCode::Xxd => "XXD",
            BookCode::Xxe => "XXE",
            BookCode::Xxf => "XXF",
            BookCode::Xxg => "XXG",
            BookCode::Frt => "FRT",
            BookCode::Bak => "BAK",
            BookCode::Oth => "OTH",
            BookCode::Int => "INT",
            BookCode::Cnc => "CNC",
            BookCode::Glo => "GLO",
            BookCode::Tdx => "TDX",
            BookCode::Ndx => "NDX",
            BookCode::Other(bytes) => ascii_str(bytes),
        }
    }

    /// The code as an owned string: what `Display` writes.
    pub fn to_string(&self) -> (text: String)
        requires
            self.wf(),
        ensures
            text@ == code_text(*self),
    {
        self.as_str().to_owned()
    }

    /// The listed book with this (already upper-cased) code, if there is one.
    fn listed_from_str(text: &str) -> (code: Option<BookCode>)
        ensures
            code == listed_from_text(text@),
    {
        if str_eq(text, "GEN") { Some(BookCode::Gen) } else
        if str_eq(text, "EXO") { Some(BookCode::Exo) } else
        if str_eq(text, "LEV") { Some(BookCode::Lev) } else
        if str_eq(text, "NUM") { Some(BookCode::Num) } else
        if str_eq(text, "DEU") { Some(BookCode::Deu) } else
        if str_eq(text, "JOS") { Some(BookCode::Jos) } else
        if str_eq(text, "JDG") { Some(BookCode::Jdg) } else
        if str_eq(text, "RUT") { Some(BookCode::Rut) } else
        if str_eq(text, "1SA") { Some(BookCode::Sa1) } else
        if str_eq(text, "2SA") { Some(BookCode::Sa2) } else
        if str_eq(text, "1KI") { Some(BookCode::Ki1) } else
        if str_eq(text, "2KI") { Some(BookCode::Ki2) } else
        if str_eq(text, "1CH") { Some(BookCode::Ch1) } else
        if str_eq(text, "2CH") { Some(BookCode::Ch2) } else
        if str_eq(text, "EZR") { Some(BookCode::Ezr) } else
        if str_eq(text, "NEH") { Some(BookCode::Neh) } else
        if str_eq(text, "EST") { Some(BookCode::Est) } else
        if str_eq(text, "JOB") { Some(BookCode::Job) } else
        if str_eq(text, "PSA") { Some(BookCode::Psa) } else
        if str_eq(text, "PRO") { Some(BookCode::Pro) } else
        if str_eq(text, "ECC") { Some(BookCode::Ecc) } else
        if str_eq(text, "SNG") { Some(BookCode::Sng) } else
        if str_eq(text, "ISA") { Some(BookCode::Isa) } else
        if str_eq(text, "JER") { Some(BookCode::Jer) } else
        if str_eq(text, "LAM") { Some(BookCode::Lam) } else
        if str_eq(text, "EZK") { Some(BookCode::Ezk) } else
        if str_eq(text, "DAN") { Some(BookCode::Dan) } else
        if str_eq(text, "HOS") { Some(BookCode::Hos) } else
        if str_eq(text, "JOL") { Some(BookCode::Jol) } else
        if str_eq(text, "AMO") { Some(BookCode::Amo) } else
        if str_eq(text, "OBA") { Some(BookCode::Oba) } else
        if str_eq(text, "JON") { Some(BookCode::Jon) } else
        if str_eq(text, "MIC") { Some(BookCode::Mic) } else
        if str_eq(text, "NAM") { Some(BookCode::Nam) } else
        if str_eq(text, "HAB") { Some(BookCode::Hab) } else
        if str_eq(text, "ZEP") { Some(BookCode::Zep) } else
        if str_eq(text, "HAG") { Some(BookCode::Hag) } else
        if str_eq(text, "ZEC") { Some(BookCode::Zec) } else
        if str_eq(text, "MAL") { Some(BookCode::Mal) } else
        if str_eq(text, "MAT") { Some(BookCode::Mat) } else
        if str_eq(text, "MRK") { Some(BookCode::Mrk) } else
        if str_eq(text, "LUK") { Some(BookCode::Luk) } else
        if str_eq(text, "JHN") { Some(BookCode::Jhn) } else
        if str_eq(text, "ACT") { Some(BookCode::Act) } else
        if str_eq(text, "ROM") { Some(BookCode::Rom) } else
        if str_eq(text, "1CO") { Some(BookCode::Co1) } else
        if str_eq(text, "2CO") { Some(BookCode::Co2) } else
        if str_eq(text, "GAL") { Some(BookCode::Gal) } else
        if str_eq(text, "EPH") { Some(BookCode::Eph) } else
        if str_eq(text, "PHP") { Some(BookCode::Php) } else
        if str_eq(text, "COL") { Some(BookCode::Col) } else
        if str_eq(text, "1TH") { Some(BookCode::Th1) } else
        if str_eq(text, "2TH") { Some(BookCode::Th2) } else
        if str_eq(text, "1TI") { Some(BookCode::Ti1) } else
        if str_eq(text, "2TI") { Some(BookCode::Ti2) } else
        if str_eq(text, "TIT") { Some(BookCode::Tit) } else
        if str_eq(text, "PHM") { Some(BookCode::Phm) } else
        if str_eq(text, "HEB") { Some(BookCode::Heb) } else
        if str_eq(text, "JAS") { Some(BookCode::Jas) } else
        if str_eq(text, "1PE") { Some(BookCode::Pe1) } else
        if str_eq(text, "2PE") { Some(BookCode::Pe2) } else
        if str_eq(text, "1JN") { Some(BookCode::Jn1) } else
        if str_eq(text, "2JN") { Some(BookCode::Jn2) } else
        if str_eq(text, "3JN") { Some(BookCode::Jn3) } else
        if str_eq(text, "JUD") { Some(BookCode::Jud) } else
        if str_eq(text, "REV") { Some(BookCode::Rev) } else
        if str_eq(text, "TOB") { Some(BookCode::Tob) } else
        if str_eq(text, "JDT") { Some(BookCode::Jdt) } else
        if str_eq(text, "ESG") { Some(BookCode::Esg) } else
        if str_eq(text, "WIS") { Some(BookCode::Wis) } else
        if str_eq(text, "SIR") { Some(BookCode::Sir) } else
        if str_eq(text, "BAR") { Some(BookCode::Bar) } else
        if str_eq(text, "LJE") { Some(BookCode::Lje) } else
        if str_eq(text, "S3Y") { Some(BookCode::S3y) } else
        if str_eq(text, "SUS") { Some(BookCode::Sus) } else
        if str_eq(text, "BEL") { Some(BookCode::Bel) } else
        if str_eq(text, "1MA") { Some(BookCode::Ma1) } else
        if str_eq(text, "2MA") { Some(BookCode::Ma2) } else
        if str_eq(text, "3MA") { Some(BookCode::Ma3) } else
        if str_eq(text, "4MA") { Some(BookCode::Ma4) } else
        if str_eq(text, "1ES") { Some(BookCode::Es1) } else
        if str_eq(text, "2ES") { Some(BookCode::Es2) } else
        if str_eq(text, "MAN") { Some(BookCode::Man) } else
        if str_eq(text, "PS2") { Some(BookCode::Ps2) } else
        if str_eq(text, "ODA") { Some(BookCode::Oda) } else
        if str_eq(text, "PSS") { Some(BookCode::Pss) } else
        if str_eq(text, "EZA") { Some(BookCode::Eza) } else
        if str_eq(text, "5EZ") { Some(BookCode::Ez5) } else
        if str_eq(text, "6EZ") { Some(BookCode::Ez6) } else
        if str_eq(text, "DAG") { Some(BookCode::Dag) } else
        if str_eq(text, "PS3") { Some(BookCode::Ps3) } else
        if str_eq(text, "2BA") { Some(BookCode::Ba2) } else
        if str_eq(text, "LBA") { Some(BookCode::Lba) } else
        if str_eq(text, "JUB") { Some(BookCode::Jub) } else
        if str_eq(text, "ENO") { Some(BookCode::Eno) } else
        if str_eq(text, "1MQ") { Some(BookCode::Mq1) } else
        if str_eq(text, "2MQ") { Some(BookCode::Mq2) } else
        if str_eq(text, "3MQ") { Some(BookCode::Mq3) } else
        if str_eq(text, "REP") { Some(BookCode::Rep) } else
        if str_eq(text, "4BA") { Some(BookCode::Ba4) } else
        if str_eq(text, "LAO") { Some(BookCode::Lao) } else
        if str_eq(text, "XXA") { Some(BookCode::Xxa) } else
        if str_eq(text, "XXB") { Some(BookCode::Xxb) } else
        if str_eq(text, "XXC") { Some(BookCode::Xxc) } else
        if str_eq(text, "XXD") { Some(BookCode::Xxd) } else
        if str_eq(text, "XXE") { Some(BookCode::Xxe) } else
        if str_eq(text, "XXF") { Some(BookCode::Xxf) } else
        if str_eq(text, "XXG") { Some(BookCode::Xxg) } else
        if str_eq(text, "FRT") { Some(BookCode::Frt) } else
        if str_eq(text, "BAK") { Some(BookCode::Bak) } else
        if str_eq(text, "OTH") { Some(BookCode::Oth) } else
        if str_eq(text, "INT") { Some(BookCode::Int) } else
        if str_eq(text, "CNC") { Some(BookCode::Cnc) } else
        if str_eq(text, "GLO") { Some(BookCode::Glo) } else
        if str_eq(text, "TDX") { Some(BookCode::Tdx) } else
        if str_eq(text, "NDX") { Some(BookCode::Ndx) } else
        { None }
    }

    /// A book code from text that is already upper case: a listed book, or
    /// failing that `Other` for a code matching `usx.rnc`'s catch-all
    /// pattern. Only a code matching neither is an error.
    pub fn from_upper(text: &str) -> (code: Result<BookCode, UnknownBookCodeError>)
        ensures
            code == code_from_upper(text@),
            code matches Ok(c) ==> c.wf(),
    {
        if let Some(listed) = Self::listed_from_str(text) {
            return Ok(listed);
        }
        if is_well_formed_book_code(text) {
            let chars = str_chars(text);
            let b0 = chars[0] as u8;
            let b1 = chars[1] as u8;
            let b2 = chars[2] as u8;
            return Ok(BookCode::Other([b0, b1, b2]));
        }
        Err(UnknownBookCodeError)
    }

    /// A book code from what follows `\id`: upper-cased first, then read by
    /// [`BookCode::from_upper`].
    pub fn from_str(text: &str) -> (code: Result<BookCode, UnknownBookCodeError>)
        ensures
            code == code_from_upper(uppercase(text@)),
            is_ascii_text(text@) ==> code == code_from_upper(text@.map_values(|c: char| ascii_upper_char(c))),
            code matches Ok(c) ==> c.wf(),
    {
        let upper = to_uppercase(text);
        Self::from_upper(upper.as_str())
    }
}

} // verus!

verus! {

/// A code read from its upper-cased text is written back as that text: a
/// listed book as its own code, any other well-formed code as the three
/// characters it was read from.
#[verifier::rlimit(100)]
pub proof fn law_a_code_reads_back_as_its_text(text: Seq<char>)
    ensures
        code_from_upper(text) matches Ok(code) ==> crate::codegen::code_spelling(code) == text,
{
    if listed_from_text(text) is None && well_formed_code(text) {
        assert((text[0] as u8) as char == text[0]);
        assert((text[1] as u8) as char == text[1]);
        assert((text[2] as u8) as char == text[2]);
        assert(crate::codegen::code_spelling(other_from_text(text)) =~= text);
    }
}

/// A code that reading built reads back from its own spelling as itself,
/// `Other` included: `from_upper(code.as_str()) == Ok(code)`.
pub proof fn law_a_read_code_round_trips(text: Seq<char>)
    ensures
        code_from_upper(text) matches Ok(code) ==> code_from_upper(crate::codegen::code_spelling(code))
            == Ok::<BookCode, UnknownBookCodeError>(code),
{
    law_a_code_reads_back_as_its_text(text);
}

} // verus!
