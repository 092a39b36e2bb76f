//! Deciding whether a detected status code calls for a notification.
use vstd::prelude::*;

verus! {

/// How detected codes are filtered; built once at startup and read only.
pub struct FilterConfig {
    /// Codes to notify on; when present and non-empty it decides alone.
    pub explicit_codes: Option<Vec<u16>>,
    /// Notify on every detected code.
    pub match_all: bool,
    /// The default rule: notify on client and server errors only. It is
    /// what applies when neither of the two fields above decides.
    pub errors_only: bool,
}

/// The explicit list, where one is given and it is not empty.
pub open spec fn explicit_list(codes: Option<Seq<u16>>) -> Option<Seq<u16>> {
    match codes {
        Some(c) => if c.len() > 0 {
            Some(c)
        } else {
            None
        },
        None => None,
    }
}

/// The filter rule, in its fixed precedence: an explicit list, then
/// `match_all`, then the error classes 4xx and 5xx.
pub open spec fn notify_rule(codes: Option<Seq<u16>>, match_all: bool, code: u16) -> bool {
    match explicit_list(codes) {
        Some(c) => c.contains(code),
        None => if match_all {
            true
        } else {
            400 <= code <= 599
        },
    }
}

/// A non-empty explicit list decides alone, whatever `match_all` says.
pub proof fn lemma_explicit_list_wins(codes: Seq<u16>, match_all: bool, code: u16)
    requires
        codes.len() > 0,
    ensures
        notify_rule(Some(codes), match_all, code) == codes.contains(code),
        notify_rule(Some(codes), true, code) == notify_rule(Some(codes), false, code),
{
}

/// With no list and no `match_all`, exactly client and server errors are
/// notified: 404 is, 200 is not.
pub proof fn lemma_default_rule(code: u16)
    ensures
        notify_rule(None, false, code) == (400 <= code <= 599),
        notify_rule(None, false, 404),
        !notify_rule(None, false, 200),
{
}

impl FilterConfig {
    pub open spec fn codes_view(&self) -> Option<Seq<u16>> {
        match self.explicit_codes {
            Some(v) => Some(v@),
            None => None,
        }
    }

    /// Whether this configuration notifies on `code`.
    pub open spec fn notifies(&self, code: u16) -> bool {
        notify_rule(self.codes_view(), self.match_all, code)
    }

    pub fn new(explicit_codes: Option<Vec<u16>>, match_all: bool, errors_only: bool) -> (r: Self)
        ensures
            r.explicit_codes == explicit_codes,
            r.match_all == match_all,
            r.errors_only == errors_only,
    {
        FilterConfig { explicit_codes, match_all, errors_only }
    }

    /// No explicit list, not `match_all`: errors only.
    pub fn errors_only_default() -> (r: Self)
        ensures
            r.explicit_codes is None,
            !r.match_all,
            r.errors_only,
            forall|c: u16| r.notifies(c) <==> 400 <= c <= 599,
    {
        FilterConfig { explicit_codes: None, match_all: false, errors_only: true }
    }

    /// Whether a detected `code` is to be notified.
    pub fn should_notify(&self, code: u16) -> (r: bool)
        ensures
            r == self.notifies(code),
    {
        match &self.explicit_codes {
            Some(list) => {
                if list.len() > 0 {
                    return contains_code(list, code);
                }
            },
            None => {},
        }
        if self.match_all {
            true
        } else {
            400 <= code && code <= 599
        }
    }
}

fn contains_code(list: &Vec<u16>, code: u16) -> (r: bool)
    ensures
        r == list@.contains(code),
{
    let mut i: usize = 0;
    while i < list.len()
        invariant
            i <= list@.len(),
            forall|j: int| 0 <= j < i ==> list@[j] != code,
        decreases list.len() - i,
    {
        if list[i] == code {
            return true;
        }
        i += 1;
    }
    false
}

} // verus!
