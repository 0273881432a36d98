//! The confirmation gate that guards overwriting and deleting binding files.
use vstd::prelude::*;
use vstd::string::*;

verus! {

/// What `str::trim` leaves of a text (leading and trailing Unicode white space removed).
pub uninterp spec fn trimmed_of(s: Seq<char>) -> Seq<char>;

/// What `str::to_lowercase` makes of a text.
pub uninterp spec fn lowercase_of(s: Seq<char>) -> Seq<char>;

/// Relies on `str::trim`: the result is the text without leading and trailing white space.
#[verifier::external_body]
fn trim_text(s: &str) -> (r: &str)
    ensures
        r@ == trimmed_of(s@),
{
    s.trim()
}

/// Relies on `str::to_lowercase`: the result depends on the characters alone.
#[verifier::external_body]
fn lowercase_text(s: &str) -> (r: String)
    ensures
        r@ == lowercase_of(s@),
{
    s.to_lowercase()
}

/// A reply as a value of the model.
pub open spec fn reply_view(reply: Option<&str>) -> Option<Seq<char>> {
    match reply {
        Some(l) => Some(l@),
        None => None,
    }
}

/// A reply that approves: `y` or `yes`.
pub open spec fn is_yes(s: Seq<char>) -> bool {
    s == seq!['y'] || s == seq!['y', 'e', 's']
}

/// Whether a line read from the user approves, once trimmed and lower-cased.
/// `None` stands for a line that could not be read.
pub open spec fn reply_approves(line: Option<Seq<char>>) -> bool {
    match line {
        Some(l) => is_yes(lowercase_of(trimmed_of(l))),
        None => false,
    }
}

/// Whether a reply, already trimmed and lower-cased, approves: it is `y` or
/// `yes`.
pub fn text_is_yes(s: &str) -> (r: bool)
    ensures
        r == is_yes(s@),
{
    let n = s.unicode_len();
    if n == 1 {
        let r = s.get_char(0) == 'y';
        assert(r ==> s@ =~= seq!['y']);
        assert(s@ != seq!['y', 'e', 's']);
        r
    } else if n == 3 {
        let a = s.get_char(0);
        let b = s.get_char(1);
        let c = s.get_char(2);
        let r = a == 'y' && b == 'e' && c == 's';
        assert(r ==> s@ =~= seq!['y', 'e', 's']);
        assert(s@ != seq!['y']);
        r
    } else {
        assert(s@ != seq!['y']);
        assert(s@ != seq!['y', 'e', 's']);
        false
    }
}

/// Reads a reply to a confirmation prompt: it approves when, trimmed and
/// lower-cased, it is `y` or `yes`. A reply that could not be read is `None`
/// and approves nothing.
pub fn reply_is_approval(line: Option<&str>) -> (r: bool)
    ensures
        r == reply_approves(reply_view(line)),
{
    match line {
        Some(l) => {
            let t = trim_text(l);
            let lower = lowercase_text(t);
            text_is_yes(lower.as_str())
        },
        None => false,
    }
}

/// How a yes/no question about a destructive action is answered.
/// Chosen once per command.
#[derive(Clone, Copy, Debug, PartialEq, Eq, Structural)]
pub enum BindingConfirmers {
    /// Ask the user on the console and read a line.
    Console,
    /// Approve without asking.
    Always,
    /// Decline without asking.
    Never,
}

impl BindingConfirmers {
    /// The decision, given the user's reply where the policy asks for one.
    pub open spec fn decides(self, reply: Option<Seq<char>>) -> bool {
        match self {
            BindingConfirmers::Always => true,
            BindingConfirmers::Never => false,
            BindingConfirmers::Console => reply_approves(reply),
        }
    }

    /// Whether the policy needs a reply from the user before it decides.
    pub fn is_interactive(&self) -> (r: bool)
        ensures
            r == (*self is Console),
    {
        match self {
            BindingConfirmers::Console => true,
            _ => false,
        }
    }

    /// Answers a confirmation question. `Always` approves and `Never` declines
    /// without looking at `reply`; `Console` approves exactly when the line the
    /// user typed reads `y` or `yes`.
    pub fn confirm(&self, reply: Option<&str>) -> (r: bool)
        ensures
            r == self.decides(reply_view(reply)),
    {
        match self {
            BindingConfirmers::Always => true,
            BindingConfirmers::Never => false,
            BindingConfirmers::Console => reply_is_approval(reply),
        }
    }
}

} // verus!
