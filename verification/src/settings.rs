//! Connection settings shared by every component that connects to the
//! broker.

use vstd::prelude::*;
use vstd::string::*;

verus! {

/// Settings for the broker client.  `retry_timeout` is the ceiling, in
/// milliseconds, on the total time spent retrying the initial connect;
/// absent means retry indefinitely.  `max_reconnects` caps the client's own
/// reconnects after an established connection drops.
#[derive(Clone, Debug)]
pub struct NatsClientSettings {
    pub addresses: Vec<String>,
    pub max_reconnects: Option<usize>,
    pub retry_timeout: Option<u64>,
}

/// The comma-joined form of an address list, as the underlying client
/// expects a single endpoint string.
pub open spec fn spec_join_addresses(addrs: Seq<Seq<char>>) -> Seq<char>
    decreases addrs.len(),
{
    if addrs.len() == 0 {
        Seq::empty()
    } else if addrs.len() == 1 {
        addrs[0]
    } else {
        addrs[0] + seq![','] + spec_join_addresses(addrs.skip(1))
    }
}

/// Appending one more address extends the joined form by a comma and that
/// address.
proof fn lemma_join_push(addrs: Seq<Seq<char>>, x: Seq<char>)
    requires
        addrs.len() >= 1,
    ensures
        spec_join_addresses(addrs.push(x)) == spec_join_addresses(addrs) + seq![','] + x,
    decreases addrs.len(),
{
    if addrs.len() == 1 {
        assert(addrs.push(x).skip(1) =~= seq![x]);
        assert(spec_join_addresses(seq![x]) == x);
        assert(addrs.push(x)[0] == addrs[0]);
    } else {
        assert(addrs.push(x).skip(1) =~= addrs.skip(1).push(x));
        lemma_join_push(addrs.skip(1), x);
        assert(addrs.push(x)[0] == addrs[0]);
        assert((addrs[0] + seq![','] + spec_join_addresses(addrs.skip(1))) + seq![','] + x =~= addrs[0]
            + seq![','] + (spec_join_addresses(addrs.skip(1)) + seq![','] + x));
    }
}

pub open spec fn view_addresses(addrs: Seq<String>) -> Seq<Seq<char>> {
    addrs.map_values(|s: String| s@)
}

impl NatsClientSettings {
    /// The address list joined with commas, handed to the broker client as
    /// its endpoint string.
    pub fn joined_addresses(&self) -> (r: String)
        ensures
            r@ == spec_join_addresses(view_addresses(self.addresses@)),
    {
        let ghost av = view_addresses(self.addresses@);
        let mut r = String::new();
        if self.addresses.len() == 0 {
            return r;
        }
        r.append(self.addresses[0].as_str());
        proof {
            assert(av.take(1) =~= seq![av[0]]);
            assert(r@ == spec_join_addresses(av.take(1)));
        }
        let mut k: usize = 1;
        while k < self.addresses.len()
            invariant
                1 <= k <= self.addresses@.len(),
                av == view_addresses(self.addresses@),
                av.len() == self.addresses@.len(),
                r@ == spec_join_addresses(av.take(k as int)),
            decreases self.addresses@.len() - k,
        {
            r.append(",");
            r.append(self.addresses[k].as_str());
            proof {
                reveal_strlit(",");
                assert(av.take(k as int).push(av[k as int]) =~= av.take(k + 1));
                lemma_join_push(av.take(k as int), av[k as int]);
                assert(r@ =~= spec_join_addresses(av.take(k + 1)));
            }
            k += 1;
        }
        proof {
            assert(av.take(av.len() as int) =~= av);
        }
        r
    }
}

} // verus!
