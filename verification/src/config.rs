use vstd::prelude::*;
use crate::text::chars_of;

verus! {

/// When older snapshots of a job are destroyed: `unit` is `count`, a period
/// (`minute`, `hour`, `day`, `week`, `year`) or anything else for none, and
/// `value` is the number that goes with it.
pub struct PurgeRule {
    pub unit: String,
    pub value: String,
}

/// One scheduling condition of a job: the calendar `field` it tests and the
/// cron-like `value` that the field must match.
pub struct When {
    pub field: String,
    pub value: String,
}

/// One snapshot job of the configuration file.
pub struct Job {
    pub comment: Vec<String>,
    pub dataset: String,
    pub recursive: bool,
    pub prefix: String,
    pub postfix: String,
    pub date_format: String,
    pub pre_date: bool,
    pub whens: Vec<When>,
    pub purge_rule: PurgeRule,
}

/// The whole configuration file.
pub struct Znappr {
    pub jobs: Vec<Job>,
}

/// Whether `char::is_alphanumeric` holds of `c` (Unicode `Alphabetic` or a
/// Unicode numeric general category).
pub uninterp spec fn unicode_alphanumeric(c: char) -> bool;

/// Calls `char::is_alphanumeric`; the contract claims that its answer is the
/// Unicode property named by `unicode_alphanumeric`, a function of `c`, and
/// that among ASCII characters exactly the letters and digits have it.
#[verifier::external_body]
fn char_is_alphanumeric(c: char) -> (r: bool)
    ensures
        r == unicode_alphanumeric(c),
        c as u32 <= 0x7f ==> (r <==> ((0x30 <= c as u32 <= 0x39) || (0x41 <= c as u32 <= 0x5a) || (
        0x61 <= c as u32 <= 0x7a))),
{
    c.is_alphanumeric()
}

/// A character allowed in a snapshot prefix or postfix: Unicode alphabetic or
/// numeric, or one of `.`, `_`, `-`. Among ASCII characters these are the
/// letters, the digits and those three.
pub open spec fn adfix_char(c: char) -> bool {
    if c as u32 <= 0x7f {
        (0x30 <= c as u32 <= 0x39) || (0x41 <= c as u32 <= 0x5a) || (0x61 <= c as u32 <= 0x7a)
            || c == '.' || c == '_' || c == '-'
    } else {
        unicode_alphanumeric(c)
    }
}

/// Whether every character of `s` is allowed in a prefix or postfix.
pub open spec fn adfix_valid(s: Seq<char>) -> bool {
    forall|i: int| 0 <= i < s.len() ==> adfix_char(#[trigger] s[i])
}

/// Whether a prefix or postfix holds only characters allowed in a snapshot
/// label.
pub fn adfix_is_valid(test: &str) -> (r: bool)
    ensures
        r == adfix_valid(test@),
{
    let chars = chars_of(test);
    let mut is_valid: bool = true;
    let mut i: usize = 0;
    while i < chars.len()
        invariant
            chars@ == test@,
            i <= chars.len(),
            is_valid == adfix_valid(test@.take(i as int)),
        decreases chars.len() - i,
    {
        let c = chars[i];
        let c_is_valid = char_is_alphanumeric(c) || c == '.' || c == '_' || c == '-';
        proof {
            let a = test@.take(i as int);
            let b = test@.take(i + 1);
            assert(forall|j: int| 0 <= j < i ==> a[j] == #[trigger] b[j]);
            assert(b[i as int] == c);
        }
        is_valid = is_valid && c_is_valid;
        i = i + 1;
    }
    assert(test@.take(i as int) =~= test@);
    is_valid
}

} // verus!
