use vstd::prelude::*;
use vstd::string::StringExecFns;
use crate::monitor::WatchtowerMonitor;
use crate::net::http::{RegisterResponse, RequestError};
use crate::receipts::{registration_message, signed_by, RegistrationReceipt};
use crate::registry::status_set;
use crate::tower::{TowerId, TowerInfo, TowerStatus, UserId};
use crate::utils::set_tower_status;
use crate::Error;

verus! {

/// The scheme given to a tower address that names none.
pub open spec fn http_scheme() -> Seq<char> {
    seq!['h', 't', 't', 'p', ':', '/', '/']
}

/// Letters, digits, `+`, `-` and `.`: what a URL scheme is made of.
pub open spec fn is_scheme_char(c: char) -> bool {
    ('a' <= c && c <= 'z') || ('A' <= c && c <= 'Z') || ('0' <= c && c <= '9') || c == '+' || c
        == '-' || c == '.'
}

pub open spec fn is_letter(c: char) -> bool {
    ('a' <= c && c <= 'z') || ('A' <= c && c <= 'Z')
}

/// What separates a scheme from the rest of an address.
pub open spec fn scheme_separator() -> Seq<char> {
    seq![':', '/', '/']
}

/// Whether `host` starts with `<scheme>://`, the scheme being a letter
/// followed by scheme characters.
pub open spec fn has_scheme(host: Seq<char>) -> bool {
    exists|i: int|
        1 <= i && i + 3 <= host.len() && #[trigger] host.subrange(i, i + 3) == scheme_separator() && is_letter(
            host[0],
        ) && forall|j: int| 0 <= j < i ==> is_scheme_char(#[trigger] host[j])
}

/// A tower address as it is stored: prefixed with the default scheme unless
/// it already names a scheme.
pub open spec fn normalized_host(host: Seq<char>) -> Seq<char> {
    if has_scheme(host) {
        host
    } else {
        http_scheme() + host
    }
}

fn scheme_char(c: char) -> (r: bool)
    ensures
        r == is_scheme_char(c),
{
    ('a' <= c && c <= 'z') || ('A' <= c && c <= 'Z') || ('0' <= c && c <= '9') || c == '+' || c
        == '-' || c == '.'
}

/// Whether `host` already names a scheme.
pub fn has_scheme_prefix(host: &str) -> (r: bool)
    ensures
        r == has_scheme(host@),
{
    let n = host.unicode_len();
    let mut i: usize = 0;
    while i < n && scheme_char(host.get_char(i))
        invariant
            n == host@.len(),
            0 <= i <= n,
            forall|j: int| 0 <= j < i ==> is_scheme_char(#[trigger] host@[j]),
        decreases n - i,
    {
        i = i + 1;
    }
    if i == 0 || n - i < 3 {
        proof {
            if has_scheme(host@) {
                let p = choose|p: int|
                    1 <= p && p + 3 <= host@.len() && #[trigger] host@.subrange(p, p + 3) == scheme_separator()
                        && is_letter(host@[0]) && forall|j: int|
                        0 <= j < p ==> is_scheme_char(#[trigger] host@[j]);
                assert(host@.subrange(p, p + 3)[0] == host@[p]);
                if i < p {
                    assert(is_scheme_char(host@[i as int]));
                }
                assert(i >= p);
                if i > p {
                    assert(is_scheme_char(host@[p]));
                }
            }
        }
        return false;
    }
    let c0 = host.get_char(0);
    let r = ('a' <= c0 && c0 <= 'z') || ('A' <= c0 && c0 <= 'Z');
    let sep = host.get_char(i) == ':' && host.get_char(i + 1) == '/' && host.get_char(i + 2) == '/';
    proof {
        if r && sep {
            assert(host@.subrange(i as int, i + 3) =~= scheme_separator());
        }
        if has_scheme(host@) {
            let p = choose|p: int|
                1 <= p && p + 3 <= host@.len() && #[trigger] host@.subrange(p, p + 3) == scheme_separator()
                    && is_letter(host@[0]) && forall|j: int|
                    0 <= j < p ==> is_scheme_char(#[trigger] host@[j]);
            assert(host@.subrange(p, p + 3)[0] == host@[p]);
            assert(host@.subrange(p, p + 3)[1] == host@[p + 1]);
            assert(host@.subrange(p, p + 3)[2] == host@[p + 2]);
            if i < p {
                assert(is_scheme_char(host@[i as int]));
            }
            if i > p {
                assert(is_scheme_char(host@[p]));
            }
            assert(i == p);
        }
    }
    r && sep
}

/// The network address of a tower given by `host`.
pub fn normalize_host(host: &str) -> (r: String)
    ensures
        r@ == normalized_host(host@),
{
    let scheme = "http://";
    proof {
        reveal_strlit("http://");
    }
    assert(scheme@ =~= http_scheme());
    if has_scheme_prefix(host) {
        host.to_owned()
    } else {
        scheme.to_owned().concat(host)
    }
}

/// The record that `m` holds for `id`, if any.
pub open spec fn lookup(m: Map<Seq<u8>, TowerInfo>, id: Seq<u8>) -> Option<TowerInfo> {
    if m.contains_key(id) {
        Some(m[id])
    } else {
        None
    }
}

/// Whether renewed terms may replace the existing subscription: the expiry
/// must grow, or stay and come with more slots.
pub open spec fn renewal_verdict(existing: Option<TowerInfo>, slots: u32, expiry: u32) -> Result<
    (),
    Error,
> {
    match existing {
        None => Ok(()),
        Some(t) => if expiry > t.subscription_expiry {
            Ok(())
        } else if expiry < t.subscription_expiry {
            Err(Error::SubscriptionExpiryError)
        } else if slots > t.available_slots {
            Ok(())
        } else {
            Err(Error::SubscriptionSlotError)
        },
    }
}

/// A renewal that offers no later expiry and no more slots is refused; one
/// that offers a later expiry is accepted whatever its slots.
pub proof fn lemma_renewal_monotone(existing: TowerInfo, slots: u32, expiry: u32)
    ensures
        expiry <= existing.subscription_expiry && slots <= existing.available_slots
            ==> renewal_verdict(Some(existing), slots, expiry) is Err,
        expiry > existing.subscription_expiry ==> renewal_verdict(Some(existing), slots, expiry)
            is Ok,
{
}

fn check_renewal(existing: Option<TowerInfo>, slots: u32, expiry: u32) -> (r: Result<(), Error>)
    ensures
        r == renewal_verdict(existing, slots, expiry),
{
    match existing {
        None => Ok(()),
        Some(t) => {
            if expiry > t.subscription_expiry {
                Ok(())
            } else if expiry < t.subscription_expiry {
                Err(Error::SubscriptionExpiryError)
            } else if slots > t.available_slots {
                Ok(())
            } else {
                Err(Error::SubscriptionSlotError)
            }
        },
    }
}

impl WatchtowerMonitor {
    /// Decides on a tower's answer to a registration request sent for
    /// `user_id` to `host`. A connection failure marks a known tower as
    /// temporarily unreachable. A receipt that does not recover to
    /// `tower_id` is refused, and so are terms that do not improve on the
    /// current subscription. Otherwise the new record is returned, to be
    /// persisted and then committed; the registry itself is not changed here.
    pub fn register_client(
        &mut self,
        host: &str,
        tower_id: &TowerId,
        user_id: &UserId,
        response: Result<RegisterResponse, RequestError>,
    ) -> (r: Result<TowerInfo, Error>)
        requires
            old(self).wf(),
        ensures
            final(self).wf(),
            final(self).user_sk == old(self).user_sk,
            final(self).user_id == old(self).user_id,
            match response {
                Err(e) => r == Err::<TowerInfo, Error>(Error::RequestError) && final(self).towers@
                    == if e is ConnectionError {
                    status_set(old(self).towers@, tower_id@, TowerStatus::TemporaryUnreachable)
                } else {
                    old(self).towers@
                },
                Ok(resp) => final(self).towers@ == old(self).towers@ && if !signed_by(
                    registration_message(
                        user_id@,
                        resp.available_slots,
                        resp.subscription_start,
                        resp.subscription_expiry,
                    ),
                    resp.subscription_signature@,
                    tower_id@,
                ) {
                    r matches Err(Error::InvalidReceipt(_))
                } else {
                    match renewal_verdict(
                        lookup(old(self).towers@, tower_id@),
                        resp.available_slots,
                        resp.subscription_expiry,
                    ) {
                        Err(e) => r == Err::<TowerInfo, Error>(e),
                        Ok(_) => r matches Ok(t) && t.net_addr@ == normalized_host(host@)
                            && t.available_slots == resp.available_slots && t.subscription_start
                            == resp.subscription_start && t.subscription_expiry
                            == resp.subscription_expiry && t.status == TowerStatus::Reachable,
                    }
                },
            },
    {
        let resp = match response {
            Ok(resp) => resp,
            Err(e) => {
                if e.is_connection() {
                    set_tower_status(&mut self.towers, tower_id, TowerStatus::TemporaryUnreachable);
                }
                return Err(Error::RequestError);
            },
        };
        let receipt = RegistrationReceipt {
            user_id: UserId(user_id.to_vec()),
            available_slots: resp.available_slots,
            subscription_start: resp.subscription_start,
            subscription_expiry: resp.subscription_expiry,
            signature: resp.subscription_signature,
        };
        if !receipt.verify(tower_id) {
            return Err(
                Error::InvalidReceipt(
                    "Registration receipt contains bad signature. Are you using the right tower_id?".to_owned(),
                ),
            );
        }
        let existing = self.towers.get(tower_id);
        check_renewal(existing, receipt.available_slots, receipt.subscription_expiry)?;
        Ok(
            TowerInfo {
                net_addr: normalize_host(host),
                available_slots: receipt.available_slots,
                subscription_start: receipt.subscription_start,
                subscription_expiry: receipt.subscription_expiry,
                status: TowerStatus::Reachable,
            },
        )
    }
}

} // verus!
