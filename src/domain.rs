use vstd::prelude::*;

use crate::subscriptions::FormData;

verus! {

/// Longest accepted display name, counted in characters.
pub const MAX_NAME_LENGTH: usize = 256;

/// The Unicode `White_Space` code points: what `str::trim` strips.
pub open spec fn is_white_space(c: char) -> bool {
    let n = c as u32;
    (0x9 <= n && n <= 0xd) || n == 0x20 || n == 0x85 || n == 0xa0 || n == 0x1680 || (0x2000 <= n
        && n <= 0x200a) || n == 0x2028 || n == 0x2029 || n == 0x202f || n == 0x205f || n == 0x3000
}

/// The Unicode control code points (general category `Cc`).
pub open spec fn is_control(c: char) -> bool {
    let n = c as u32;
    n <= 0x1f || (0x7f <= n && n <= 0x9f)
}

/// Characters that may not appear in a display name.
pub open spec fn is_forbidden_in_name(c: char) -> bool {
    c == '/' || c == '(' || c == ')' || c == '"' || c == '<' || c == '>' || c == '\\' || c == '{'
        || c == '}' || is_control(c)
}

/// Empty once surrounding white space is trimmed.
pub open spec fn is_blank(s: Seq<char>) -> bool {
    forall|i: int| 0 <= i < s.len() ==> is_white_space(#[trigger] s[i])
}

/// What a display name must satisfy.
pub open spec fn is_valid_name(s: Seq<char>) -> bool {
    &&& !is_blank(s)
    &&& s.len() <= MAX_NAME_LENGTH
    &&& forall|i: int| 0 <= i < s.len() ==> !is_forbidden_in_name(#[trigger] s[i])
}

pub open spec fn name_error(s: Seq<char>) -> Seq<char> {
    s + " is not a valid subscriber name."@
}

pub open spec fn email_error(s: Seq<char>) -> Seq<char> {
    s + " is not a valid subscriber email."@
}

/// Whether `validator::validate_email` accepts the text.
pub uninterp spec fn email_accepted(s: Seq<char>) -> bool;

/// No white space at either end.
pub open spec fn is_trimmed(s: Seq<char>) -> bool {
    s.len() > 0 ==> !is_white_space(s[0]) && !is_white_space(s.last())
}

/// Relies on `validator::validate_email`: its verdict is a function of the text; it refuses any
/// text without an '@', and its local-part and domain patterns admit no white space at either
/// end.
#[verifier::external_body]
fn email_check(s: &str) -> (r: bool)
    ensures
        r == email_accepted(s@),
        r ==> s@.contains('@'),
        r ==> is_trimmed(s@),
{
    validator::validate_email(s)
}

fn is_white_space_char(c: char) -> (r: bool)
    ensures
        r == is_white_space(c),
{
    let n = c as u32;
    (0x9 <= n && n <= 0xd) || n == 0x20 || n == 0x85 || n == 0xa0 || n == 0x1680 || (0x2000 <= n
        && n <= 0x200a) || n == 0x2028 || n == 0x2029 || n == 0x202f || n == 0x205f || n == 0x3000
}

fn is_forbidden_char(c: char) -> (r: bool)
    ensures
        r == is_forbidden_in_name(c),
{
    let n = c as u32;
    c == '/' || c == '(' || c == ')' || c == '"' || c == '<' || c == '>' || c == '\\' || c == '{'
        || c == '}' || n <= 0x1f || (0x7f <= n && n <= 0x9f)
}

/// Decides `is_valid_name`.
pub fn name_is_valid(s: &str) -> (r: bool)
    ensures
        r == is_valid_name(s@),
{
    let n = s.unicode_len();
    if n > MAX_NAME_LENGTH {
        return false;
    }
    let mut blank = true;
    let mut i: usize = 0;
    while i < n
        invariant
            n == s@.len(),
            n <= MAX_NAME_LENGTH,
            i <= n,
            blank == (forall|k: int| 0 <= k < i ==> is_white_space(#[trigger] s@[k])),
            forall|k: int| 0 <= k < i ==> !is_forbidden_in_name(#[trigger] s@[k]),
        decreases n - i,
    {
        let c = s.get_char(i);
        if is_forbidden_char(c) {
            return false;
        }
        if !is_white_space_char(c) {
            blank = false;
        }
        i = i + 1;
    }
    !blank
}

/// A display name that passed validation.
#[derive(Debug)]
pub struct SubscriberName {
    name: String,
}

impl View for SubscriberName {
    type V = Seq<char>;

    closed spec fn view(&self) -> Seq<char> {
        self.name@
    }
}

impl SubscriberName {
    /// Accepts `s` exactly when it is a valid name; the error repeats the input.
    pub fn parse(s: String) -> (r: Result<SubscriberName, String>)
        ensures
            match r {
                Ok(n) => is_valid_name(s@) && n@ == s@,
                Err(e) => !is_valid_name(s@) && e@ == name_error(s@),
            },
    {
        if name_is_valid(s.as_str()) {
            Ok(SubscriberName { name: s })
        } else {
            Err(s.concat(" is not a valid subscriber name."))
        }
    }

    pub fn as_str(&self) -> (r: &str)
        ensures
            r@ == self@,
    {
        self.name.as_str()
    }
}

/// An email address that passed validation.
#[derive(Debug)]
pub struct SubscriberEmail {
    email: String,
}

impl View for SubscriberEmail {
    type V = Seq<char>;

    closed spec fn view(&self) -> Seq<char> {
        self.email@
    }
}

impl SubscriberEmail {
    /// Accepts `s` exactly when the email grammar does; the error repeats the input.
    pub fn parse(s: String) -> (r: Result<SubscriberEmail, String>)
        ensures
            match r {
                Ok(m) => email_accepted(s@) && m@ == s@ && s@.contains('@') && is_trimmed(s@),
                Err(e) => !email_accepted(s@) && e@ == email_error(s@),
            },
    {
        if email_check(s.as_str()) {
            Ok(SubscriberEmail { email: s })
        } else {
            Err(s.concat(" is not a valid subscriber email."))
        }
    }

    pub fn as_str(&self) -> (r: &str)
        ensures
            r@ == self@,
    {
        self.email.as_str()
    }
}

/// A subscriber whose name and email both passed validation.
#[derive(Debug)]
pub struct NewSubscriber {
    pub name: SubscriberName,
    pub email: SubscriberEmail,
}

impl NewSubscriber {
    /// Validates the name, then the email; the first failure is reported.
    pub fn parse(formdata: FormData) -> (r: Result<NewSubscriber, String>)
        ensures
            match r {
                Ok(n) => is_valid_name(formdata.name@) && email_accepted(formdata.email@)
                    && n.name@ == formdata.name@ && n.email@ == formdata.email@,
                Err(e) => if !is_valid_name(formdata.name@) {
                    e@ == name_error(formdata.name@)
                } else {
                    !email_accepted(formdata.email@) && e@ == email_error(formdata.email@)
                },
            },
            r is Ok ==> formdata.email@.contains('@') && is_trimmed(formdata.email@),
    {
        let name = match SubscriberName::parse(formdata.name) {
            Ok(n) => n,
            Err(e) => return Err(e),
        };
        let email = match SubscriberEmail::parse(formdata.email) {
            Ok(m) => m,
            Err(e) => return Err(e),
        };
        Ok(NewSubscriber { name, email })
    }
}

} // verus!
