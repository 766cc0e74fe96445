use vstd::prelude::*;

verus! {

/// A base address with every trailing slash removed.
pub open spec fn spec_trimmed(base: Seq<char>) -> Seq<char>
    decreases base.len(),
{
    if base.len() > 0 && base.last() == '/' {
        spec_trimmed(base.drop_last())
    } else {
        base
    }
}

/// The relay base with its trailing slashes cut off and one path appended.
fn relay_endpoint(relay_url: &str, path: &str) -> (r: String)
    ensures
        r@ == spec_trimmed(relay_url@) + path@,
{
    let mut k = relay_url.unicode_len();
    proof {
        assert(relay_url@.subrange(0, k as int) =~= relay_url@);
    }
    loop
        invariant
            k <= relay_url@.len(),
            spec_trimmed(relay_url@) == spec_trimmed(relay_url@.subrange(0, k as int)),
        ensures
            k <= relay_url@.len(),
            spec_trimmed(relay_url@) == relay_url@.subrange(0, k as int),
        decreases k,
    {
        if k == 0 {
            proof {
                assert(relay_url@.subrange(0, 0).len() == 0);
            }
            break ;
        }
        let c = relay_url.get_char(k - 1);
        if c != '/' {
            proof {
                assert(relay_url@.subrange(0, k as int).last() == relay_url@[k as int - 1]);
            }
            break ;
        }
        proof {
            assert(relay_url@.subrange(0, k as int).last() == relay_url@[k as int - 1]);
            assert(relay_url@.subrange(0, k as int).drop_last() =~= relay_url@.subrange(
                0,
                k as int - 1,
            ));
        }
        k = k - 1;
    }
    let stem = relay_url.substring_char(0, k);
    let mut s = stem.to_owned();
    s.append(path);
    s
}

/// The address the one-time-passcode request is posted to.
pub fn relay_otp_url(relay_url: &str) -> (r: String)
    ensures
        r@ == spec_trimmed(relay_url@) + "/api/email/otp"@,
{
    relay_endpoint(relay_url, "/api/email/otp")
}

/// The address the sign-in-link request is posted to.
pub fn relay_link_url(relay_url: &str) -> (r: String)
    ensures
        r@ == spec_trimmed(relay_url@) + "/api/email/link"@,
{
    relay_endpoint(relay_url, "/api/email/link")
}

/// The editor's hello, greeting the operator by name.
pub fn greet(name: &str) -> (r: String)
    ensures
        r@ == "Welcome to ONYX, Operator "@ + name@ + "!"@,
{
    let mut s = "Welcome to ONYX, Operator ".to_owned();
    s.append(name);
    s.append("!");
    s
}

} // verus!
