//! The client address of a request: the first entry of its forwarding
//! header when it has one, else the address of the connection.
use crate::security::{ip_syntax, is_valid_ip};
use crate::text::{trim_white_space, trimmed};
use vstd::prelude::*;

verus! {

/// The part of `s` before its first comma; all of `s` when it has none.
pub open spec fn before_comma(s: Seq<char>) -> Seq<char>
    decreases s.len(),
{
    if s.len() == 0 {
        s
    } else if s[0] == ',' {
        Seq::empty()
    } else {
        seq![s[0]] + before_comma(s.drop_first())
    }
}

/// The entry that a forwarding header names first: the text before its first
/// comma, without surrounding white space.
pub open spec fn first_forwarded(header: Seq<char>) -> Seq<char> {
    trimmed(before_comma(header))
}

proof fn lemma_before_comma_none(s: Seq<char>)
    requires
        !s.contains(','),
    ensures
        before_comma(s) == s,
    decreases s.len(),
{
    if s.len() > 0 {
        assert(!s.drop_first().contains(',')) by {
            if s.drop_first().contains(',') {
                let i = choose|i: int| 0 <= i < s.drop_first().len() && s.drop_first()[i] == ',';
                assert(s[i + 1] == ',');
            }
        }
        assert(s[0] != ',') by {
            if s[0] == ',' {
                assert(s.contains(','));
            }
        }
        lemma_before_comma_none(s.drop_first());
        assert(seq![s[0]] + s.drop_first() =~= s);
    }
}

proof fn lemma_before_comma_split(a: Seq<char>, b: Seq<char>)
    requires
        !a.contains(','),
    ensures
        before_comma(a + seq![','] + b) == a,
    decreases a.len(),
{
    let s = a + seq![','] + b;
    if a.len() == 0 {
        assert(s[0] == ',');
    } else {
        assert(a[0] != ',') by {
            if a[0] == ',' {
                assert(a.contains(','));
            }
        }
        let a2 = a.drop_first();
        assert(!a2.contains(',')) by {
            if a2.contains(',') {
                let i = choose|i: int| 0 <= i < a2.len() && a2[i] == ',';
                assert(a[i + 1] == ',');
            }
        }
        lemma_before_comma_split(a2, b);
        assert(s.drop_first() =~= a2 + seq![','] + b);
        assert(seq![a[0]] + a2 =~= a);
    }
}

/// Relies on `str::split_once`: `s` cut at its first comma, when it has one.
#[verifier::external_body]
fn split_at_first_comma<'a>(s: &'a str) -> (r: Option<(&'a str, &'a str)>)
    ensures
        r is None ==> !s@.contains(','),
        r matches Some(p) ==> s@ == p.0@ + seq![','] + p.1@ && !p.0@.contains(','),
{
    s.split_once(',')
}

/// The address that the forwarding header `header` names first.
pub fn forwarded_client(header: &str) -> (r: String)
    ensures
        r@ == first_forwarded(header@),
{
    let head = match split_at_first_comma(header) {
        Some(p) => {
            proof {
                lemma_before_comma_split(p.0@, p.1@);
            }
            p.0
        },
        None => {
            proof {
                lemma_before_comma_none(header@);
            }
            header
        },
    };
    trim_white_space(head).to_owned()
}

/// The client address to report: the first forwarded entry when the
/// request has a forwarding header, else `peer`, the connection's address.
pub fn extract_client_ip(forwarded: Option<&str>, peer: &str) -> (r: String)
    ensures
        forwarded matches Some(h) ==> r@ == first_forwarded(h@),
        forwarded is None ==> r@ == peer@,
{
    match forwarded {
        Some(h) => forwarded_client(h),
        None => peer.to_owned(),
    }
}

/// The key under which the limiter counts a request: the first forwarded
/// entry, when the request has a forwarding header and that entry is an
/// address; `None` otherwise.
pub fn extract_ip(forwarded: Option<&str>) -> (r: Option<String>)
    ensures
        forwarded is None ==> r is None,
        forwarded matches Some(h) ==> (ip_syntax(first_forwarded(h@)) ==> (r matches Some(k)
            && k@ == first_forwarded(h@))),
        forwarded matches Some(h) ==> (!ip_syntax(first_forwarded(h@)) ==> r is None),
{
    match forwarded {
        Some(h) => {
            let first = forwarded_client(h);
            if is_valid_ip(first.as_str()) {
                Some(first)
            } else {
                None
            }
        },
        None => None,
    }
}

/// The key under which the limiter counts a request: its first forwarded
/// entry when that is an address, else `peer`, the connection's address.
pub fn rate_limit_key(forwarded: Option<&str>, peer: &str) -> (r: String)
    ensures
        r@ == (match forwarded {
            Some(h) => if ip_syntax(first_forwarded(h@)) {
                first_forwarded(h@)
            } else {
                peer@
            },
            None => peer@,
        }),
{
    match extract_ip(forwarded) {
        Some(k) => k,
        None => peer.to_owned(),
    }
}

} // verus!
