//! Chapter markers: the prefixes of a page's text that decide where the page
//! goes, and the names of the files they open.

use vstd::prelude::*;
use vstd::string::StringExecFns;
use crate::error::ExtractError;
use crate::text::has_prefix;

verus! {

/// What a marker does to the output.
#[derive(Clone, Copy, Debug, PartialEq, Eq, Structural)]
pub enum MarkerAction {
    /// Write again, to the file that is open.
    Resume,
    /// Open the file of the chapter whose number follows the marker.
    OpenChapter,
    /// Open the file of the appendices.
    OpenAppendix,
    /// Stop writing.
    Suppress,
}

/// A marker and what it does.
pub struct MarkerRule {
    pub prefix: &'static str,
    pub action: MarkerAction,
}

impl View for MarkerRule {
    type V = (Seq<char>, MarkerAction);

    open spec fn view(&self) -> (Seq<char>, MarkerAction) {
        (self.prefix@, self.action)
    }
}

/// The action of the first rule of `table` whose prefix starts `text`.
pub open spec fn first_match(table: Seq<(Seq<char>, MarkerAction)>, text: Seq<char>) -> Option<
    MarkerAction,
>
    decreases table.len(),
{
    if table.len() == 0 {
        None
    } else if table[0].0.is_prefix_of(text) {
        Some(table[0].1)
    } else {
        first_match(table.drop_first(), text)
    }
}

/// The markers, in the order in which they are tried.
pub open spec fn marker_table() -> Seq<(Seq<char>, MarkerAction)> {
    seq![
        ("Introduction"@, MarkerAction::Resume),
        ("Chapter "@, MarkerAction::OpenChapter),
        ("Appendix"@, MarkerAction::OpenAppendix),
        ("Part "@, MarkerAction::Suppress),
        ("Index"@, MarkerAction::Suppress),
    ]
}

/// What the marker at the start of `text` does, if `text` starts with one.
pub open spec fn marker_action(text: Seq<char>) -> Option<MarkerAction> {
    if "Introduction"@.is_prefix_of(text) {
        Some(MarkerAction::Resume)
    } else if "Chapter "@.is_prefix_of(text) {
        Some(MarkerAction::OpenChapter)
    } else if "Appendix"@.is_prefix_of(text) {
        Some(MarkerAction::OpenAppendix)
    } else if "Part "@.is_prefix_of(text) {
        Some(MarkerAction::Suppress)
    } else if "Index"@.is_prefix_of(text) {
        Some(MarkerAction::Suppress)
    } else {
        None
    }
}

/// Trying the rules of the table in order finds the marker of a text.
pub proof fn lemma_table_finds_marker(text: Seq<char>)
    ensures
        first_match(marker_table(), text) == marker_action(text),
{
    let t0 = marker_table();
    let t1 = t0.drop_first();
    let t2 = t1.drop_first();
    let t3 = t2.drop_first();
    let t4 = t3.drop_first();
    let t5 = t4.drop_first();
    assert(t5.len() == 0);
    assert(first_match(t5, text) == None::<MarkerAction>);
    assert(first_match(t4, text) == if t4[0].0.is_prefix_of(text) {
        Some(t4[0].1)
    } else {
        first_match(t5, text)
    });
    assert(first_match(t3, text) == if t3[0].0.is_prefix_of(text) {
        Some(t3[0].1)
    } else {
        first_match(t4, text)
    });
    assert(first_match(t2, text) == if t2[0].0.is_prefix_of(text) {
        Some(t2[0].1)
    } else {
        first_match(t3, text)
    });
    assert(first_match(t1, text) == if t1[0].0.is_prefix_of(text) {
        Some(t1[0].1)
    } else {
        first_match(t2, text)
    });
}

/// The rules by which a page's text is classified, in order.
pub fn marker_rules() -> (rules: Vec<MarkerRule>)
    ensures
        rules@.map_values(|rule: MarkerRule| rule@) == marker_table(),
{
    let mut rules: Vec<MarkerRule> = Vec::new();
    rules.push(MarkerRule { prefix: "Introduction", action: MarkerAction::Resume });
    rules.push(MarkerRule { prefix: "Chapter ", action: MarkerAction::OpenChapter });
    rules.push(MarkerRule { prefix: "Appendix", action: MarkerAction::OpenAppendix });
    rules.push(MarkerRule { prefix: "Part ", action: MarkerAction::Suppress });
    rules.push(MarkerRule { prefix: "Index", action: MarkerAction::Suppress });
    assert(rules@.map_values(|rule: MarkerRule| rule@) =~= marker_table());
    rules
}

/// Tries `rules` in order and gives the action of the first whose prefix
/// starts `text`.
pub fn dispatch(rules: &Vec<MarkerRule>, text: &str) -> (action: Option<MarkerAction>)
    ensures
        action == first_match(rules@.map_values(|rule: MarkerRule| rule@), text@),
{
    let ghost table = rules@.map_values(|rule: MarkerRule| rule@);
    let mut i: usize = 0;
    assert(table.skip(0) =~= table);
    while i < rules.len()
        invariant
            i <= rules.len(),
            table == rules@.map_values(|rule: MarkerRule| rule@),
            first_match(table, text@) == first_match(table.skip(i as int), text@),
        decreases rules.len() - i,
    {
        proof {
            assert(table.skip(i as int)[0] == rules@[i as int]@);
            assert(table.skip(i as int).drop_first() =~= table.skip(i + 1));
        }
        if has_prefix(text, rules[i].prefix) {
            return Some(rules[i].action);
        }
        i = i + 1;
    }
    assert(table.skip(i as int).len() == 0);
    None
}

/// Finds what the marker at the start of `text` does.
pub fn find_marker(text: &str) -> (action: Option<MarkerAction>)
    ensures
        action == marker_action(text@),
{
    let rules = marker_rules();
    proof {
        lemma_table_finds_marker(text@);
    }
    dispatch(&rules, text)
}

/// Whether a character is one of the ten decimal digits.
pub open spec fn is_digit(c: char) -> bool {
    '0' <= c && c <= '9'
}

/// The distance of a character from the digit zero: for a decimal digit, its value.
pub open spec fn digit_value(c: char) -> int {
    c as int - '0' as int
}

/// The decimal digit of a value below ten.
pub open spec fn digit_char(value: int) -> char {
    (value + 48) as u8 as char
}

/// The number that the two characters behind a chapter marker give.
///
/// Two decimal digits are read as a number of two digits. Anything else goes by
/// its first character alone, taken for a digit whatever it is.
pub open spec fn chapter_number(first: char, second: char) -> int {
    if is_digit(first) && is_digit(second) {
        10 * digit_value(first) + digit_value(second)
    } else {
        digit_value(first)
    }
}

/// The decimal digits of a number, without padding.
pub open spec fn decimal(n: nat) -> Seq<char>
    decreases n,
{
    if n < 10 {
        seq![digit_char(n as int)]
    } else {
        decimal(n / 10).push(digit_char((n % 10) as int))
    }
}

/// A number in decimal, filled with a zero to two characters; a minus sign counts
/// as one of them.
pub open spec fn two_digits(n: int) -> Seq<char> {
    if n < 0 {
        seq!['-'] + decimal((-n) as nat)
    } else if n < 10 {
        seq!['0'] + decimal(n as nat)
    } else {
        decimal(n as nat)
    }
}

/// The number that the two characters behind a chapter marker give.
pub fn read_chapter_number(first: char, second: char) -> (number: i32)
    ensures
        number == chapter_number(first, second),
{
    let a: u32 = first as u32;
    let b: u32 = second as u32;
    if 48 <= a && a <= 57 && 48 <= b && b <= 57 {
        (10 * (a - 48) + (b - 48)) as i32
    } else {
        a as i32 - 48
    }
}

/// The text of one decimal digit.
fn digit_text(value: u32) -> (text: &'static str)
    requires
        value < 10,
    ensures
        text@ == seq![digit_char(value as int)],
{
    proof {
        reveal_strlit("0");
        reveal_strlit("1");
        reveal_strlit("2");
        reveal_strlit("3");
        reveal_strlit("4");
        reveal_strlit("5");
        reveal_strlit("6");
        reveal_strlit("7");
        reveal_strlit("8");
        reveal_strlit("9");
    }
    let text = match value {
        0 => "0",
        1 => "1",
        2 => "2",
        3 => "3",
        4 => "4",
        5 => "5",
        6 => "6",
        7 => "7",
        8 => "8",
        _ => "9",
    };
    assert(text@ =~= seq![digit_char(value as int)]);
    text
}

/// Appends the decimal digits of `n` to `out`.
fn push_decimal(out: &mut String, n: u32)
    ensures
        final(out)@ == old(out)@ + decimal(n as nat),
    decreases n,
{
    if n >= 10 {
        push_decimal(out, n / 10);
    }
    out.append(digit_text(n % 10));
    assert(out@ =~= old(out)@ + decimal(n as nat));
}

/// The name of the file that holds what comes before the first chapter.
pub open spec fn preamble_file_name() -> Seq<char> {
    "00.txt"@
}

/// The name of the file that all appendices share.
pub open spec fn appendix_file_name() -> Seq<char> {
    "A.txt"@
}

/// The name of the file of the chapter whose number follows the marker at the
/// start of `text`.
pub open spec fn chapter_file_name(text: Seq<char>) -> Seq<char> {
    let at = "Chapter "@.len() as int;
    two_digits(chapter_number(text[at], text[at + 1])) + ".txt"@
}

/// Whether the two characters of a chapter number follow the marker.
pub open spec fn has_chapter_number(text: Seq<char>) -> bool {
    text.len() >= "Chapter "@.len() + 2
}

/// Where the text of a page goes.
#[derive(Debug, PartialEq, Eq)]
pub enum Decision {
    /// The page has no marker: nothing changes.
    Keep,
    /// Write this page and those after it to the file that is open.
    Resume,
    /// Open the named file and write this page and those after it there.
    Open(String),
    /// Drop this page and those after it.
    Suppress,
}

/// A decision with the file name as a sequence of characters.
pub enum DecisionView {
    Keep,
    Resume,
    Open(Seq<char>),
    Suppress,
}

impl View for Decision {
    type V = DecisionView;

    open spec fn view(&self) -> DecisionView {
        match self {
            Decision::Keep => DecisionView::Keep,
            Decision::Resume => DecisionView::Resume,
            Decision::Open(name) => DecisionView::Open(name@),
            Decision::Suppress => DecisionView::Suppress,
        }
    }
}

/// The decision that the text of a page calls for.
///
/// The marker at the start of the text decides. A chapter marker needs the
/// two characters of its number behind it.
pub open spec fn classification(text: Seq<char>) -> Result<DecisionView, ExtractError> {
    match marker_action(text) {
        None => Ok(DecisionView::Keep),
        Some(MarkerAction::Resume) => Ok(DecisionView::Resume),
        Some(MarkerAction::OpenChapter) => if has_chapter_number(text) {
            Ok(DecisionView::Open(chapter_file_name(text)))
        } else {
            Err(ExtractError::ChapterNumber)
        },
        Some(MarkerAction::OpenAppendix) => Ok(DecisionView::Open(appendix_file_name())),
        Some(MarkerAction::Suppress) => Ok(DecisionView::Suppress),
    }
}

/// Decides where the text of a page goes.
pub fn classify(text: &str) -> (outcome: Result<Decision, ExtractError>)
    ensures
        match classification(text@) {
            Ok(decision) => outcome is Ok && outcome->Ok_0@ == decision,
            Err(error) => outcome == Err::<Decision, ExtractError>(error),
        },
{
    match find_marker(text) {
        None => Ok(Decision::Keep),
        Some(MarkerAction::Resume) => Ok(Decision::Resume),
        Some(MarkerAction::OpenChapter) => {
            let at = "Chapter ".unicode_len();
            proof {
                reveal_strlit("Chapter ");
            }
            if text.unicode_len() < at + 2 {
                return Err(ExtractError::ChapterNumber);
            }
            let number = read_chapter_number(text.get_char(at), text.get_char(at + 1));
            let mut name = two_digit_string(number);
            name.append(".txt");
            Ok(Decision::Open(name))
        },
        Some(MarkerAction::OpenAppendix) => Ok(Decision::Open(String::from_str("A.txt"))),
        Some(MarkerAction::Suppress) => Ok(Decision::Suppress),
    }
}

/// Writes a number in decimal, filled with a zero to two characters.
pub fn two_digit_string(n: i32) -> (text: String)
    ensures
        text@ == two_digits(n as int),
{
    let mut text = String::new();
    if n < 0 {
        proof {
            reveal_strlit("-");
        }
        text.append("-");
        let magnitude: i64 = 0 - (n as i64);
        push_decimal(&mut text, magnitude as u32);
        assert(text@ =~= two_digits(n as int));
    } else {
        if n < 10 {
            proof {
                reveal_strlit("0");
            }
            text.append("0");
        }
        push_decimal(&mut text, n as u32);
        assert(text@ =~= two_digits(n as int));
    }
    text
}

} // verus!
