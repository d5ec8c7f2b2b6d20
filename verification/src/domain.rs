//! Validated subscriber data: names and email addresses.

use vstd::prelude::*;

verus! {

/// Characters that a subscriber name may never contain, to keep stored
/// names safe to embed in HTML and log lines.
pub open spec fn forbidden_name_char(c: char) -> bool {
    ||| c == '/'
    ||| c == '('
    ||| c == ')'
    ||| c == '"'
    ||| c == '<'
    ||| c == '>'
    ||| c == '\\'
    ||| c == '{'
    ||| c == '}'
}

/// The whitespace characters that count as blank in a name.
pub open spec fn whitespace_char(c: char) -> bool {
    c == ' ' || c == '\t' || c == '\n' || c == '\r'
}

/// A name is valid when it is at most 256 characters long, holds at least
/// one non-whitespace character, and none of the forbidden characters.
pub open spec fn valid_subscriber_name(s: Seq<char>) -> bool {
    &&& s.len() <= 256
    &&& exists|i: int| 0 <= i < s.len() && !whitespace_char(s[i])
    &&& forall|i: int| 0 <= i < s.len() ==> !forbidden_name_char(s[i])
}

/// An email address is valid when it contains exactly one `@`, neither at
/// the first nor at the last position, and no whitespace anywhere.
pub open spec fn valid_subscriber_email(s: Seq<char>) -> bool {
    &&& exists|i: int| 0 <= i < s.len() && s[i] == '@'
    &&& forall|i: int, j: int|
        (0 <= i < s.len() && 0 <= j < s.len() && s[i] == '@' && s[j] == '@') ==> i == j
    &&& s.len() > 0 && s[0] != '@' && s[s.len() - 1] != '@'
    &&& forall|i: int| 0 <= i < s.len() ==> !whitespace_char(s[i])
}

/// A subscriber name that passed [`SubscriberName::parse`].
#[derive(Debug)]
pub struct SubscriberName {
    name: String,
}

impl View for SubscriberName {
    type V = Seq<char>;

    closed spec fn view(&self) -> Seq<char> {
        self.name@
    }
}

impl SubscriberName {
    /// Accepts exactly the strings that satisfy [`valid_subscriber_name`].
    pub fn parse(s: String) -> (r: Result<SubscriberName, String>)
        ensures
            match r {
                Ok(n) => valid_subscriber_name(s@) && n@ == s@,
                Err(e) => !valid_subscriber_name(s@) && e@ == s@ + " is not a valid subscriber name."@,
            },
    {
        let len = s.as_str().unicode_len();
        let mut ok = len <= 256;
        let mut all_whitespace = true;
        let mut i: usize = 0;
        while i < len
            invariant
                len == s@.len(),
                i <= len,
                all_whitespace == forall|j: int| 0 <= j < i ==> whitespace_char(s@[j]),
                ok == (s@.len() <= 256 && forall|j: int| 0 <= j < i ==> !forbidden_name_char(s@[j])),
            decreases len - i,
        {
            let c = s.as_str().get_char(i);
            if !(c == ' ' || c == '\t' || c == '\n' || c == '\r') {
                all_whitespace = false;
            }
            if c == '/' || c == '(' || c == ')' || c == '"' || c == '<' || c == '>' || c == '\\'
                || c == '{' || c == '}' {
                ok = false;
            }
            i += 1;
        }
        if ok && !all_whitespace {
            Ok(SubscriberName { name: s })
        } else {
            let mut message = s;
            message.append(" is not a valid subscriber name.");
            Err(message)
        }
    }

    /// The validated name.
    pub fn as_str(&self) -> (r: &str)
        ensures
            r@ == self@,
    {
        self.name.as_str()
    }
}

/// An email address that passed [`SubscriberEmail::parse`].
#[derive(Debug)]
pub struct SubscriberEmail {
    email: String,
}

impl View for SubscriberEmail {
    type V = Seq<char>;

    closed spec fn view(&self) -> Seq<char> {
        self.email@
    }
}

impl SubscriberEmail {
    /// Accepts exactly the strings that satisfy [`valid_subscriber_email`].
    pub fn parse(s: String) -> (r: Result<SubscriberEmail, String>)
        ensures
            match r {
                Ok(e) => valid_subscriber_email(s@) && e@ == s@,
                Err(e) => !valid_subscriber_email(s@) && e@ == s@
                    + " is not a valid subscriber email."@,
            },
    {
        let len = s.as_str().unicode_len();
        let mut at_seen = false;
        let mut at_repeated = false;
        let mut has_whitespace = false;
        let mut edge_at = false;
        let mut i: usize = 0;
        while i < len
            invariant
                len == s@.len(),
                i <= len,
                at_seen == exists|j: int| 0 <= j < i && s@[j] == '@',
                at_repeated == !(forall|j: int, k: int|
                    (0 <= j < i && 0 <= k < i && s@[j] == '@' && s@[k] == '@') ==> j == k),
                has_whitespace == exists|j: int| 0 <= j < i && whitespace_char(s@[j]),
                edge_at == ((i > 0 && s@[0] == '@') || (exists|j: int|
                    0 <= j < i && j == s@.len() - 1 && s@[j] == '@')),
            decreases len - i,
        {
            let c = s.as_str().get_char(i);
            if c == '@' {
                if at_seen {
                    at_repeated = true;
                }
                if i == 0 || i == len - 1 {
                    edge_at = true;
                }
                at_seen = true;
            }
            if c == ' ' || c == '\t' || c == '\n' || c == '\r' {
                has_whitespace = true;
            }
            i += 1;
        }
        if at_seen && !at_repeated && !has_whitespace && !edge_at {
            Ok(SubscriberEmail { email: s })
        } else {
            let mut message = s;
            message.append(" is not a valid subscriber email.");
            Err(message)
        }
    }

    /// The validated address.
    pub fn as_str(&self) -> (r: &str)
        ensures
            r@ == self@,
    {
        self.email.as_str()
    }
}

/// A new subscription request whose fields both passed validation.
#[derive(Debug)]
pub struct NewSubscriber {
    pub email: SubscriberEmail,
    pub name: SubscriberName,
}

} // verus!
