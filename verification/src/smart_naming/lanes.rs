//! Several naming lanes side by side: which lane a conversation enters, and when
//! they share a discovery.

use vstd::prelude::*;
use vstd::std_specs::hash::DefaultHasherAdditionalSpecFns;
use std::collections::hash_map::DefaultHasher;
use std::hash::Hasher;
use crate::error::MuxError;
use crate::smart_naming::lane::DiscoveryPhase;
use crate::smart_naming::target;
use crate::smart_naming::target::{NamingTarget, TargetModel};
use crate::smart_naming::thread;
use crate::text;

verus! {

/// Builds the naming infrastructure only after an explicit opt-in: without it nothing
/// is started.
pub fn start_if_enabled<T, F: FnOnce() -> Result<T, MuxError>>(
    enabled: bool,
    start: F,
) -> (r: Result<Option<T>, MuxError>)
    requires
        enabled ==> start.requires(()),
    ensures
        !enabled ==> r is Ok && r->Ok_0 is None,
        enabled ==> match r {
            Ok(Some(started)) => start.ensures((), Ok(started)),
            Ok(None) => false,
            Err(e) => start.ensures((), Err(e)),
        },
{
    if !enabled {
        return Ok(None);
    }
    match start() {
        Ok(started) => Ok(Some(started)),
        Err(e) => Err(e),
    }
}

/// Most lanes side by side.
pub const MAX_LANES: usize = 8;

/// A number of lanes that can be run.
pub fn lane_count(wanted: usize) -> (r: usize)
    ensures
        1 <= r <= MAX_LANES,
        1 <= wanted <= MAX_LANES ==> r == wanted,
        wanted > MAX_LANES ==> r == MAX_LANES,
        wanted < 1 ==> r == 1,
{
    if wanted < 1 {
        1
    } else if wanted > MAX_LANES {
        MAX_LANES
    } else {
        wanted
    }
}

/// The bytes of a hint other than dashes, twelve at most.
pub open spec fn lane_key(bytes: Seq<u8>, i: int, n: nat) -> Seq<u8>
    decreases bytes.len() - i,
{
    if n == 0 || i < 0 || i >= bytes.len() {
        Seq::empty()
    } else if bytes[i] == 0x2d {
        lane_key(bytes, i + 1, n)
    } else {
        seq![bytes[i]] + lane_key(bytes, i + 1, (n - 1) as nat)
    }
}

/// The lane that a hint enters.
pub open spec fn lane_of(hint: Seq<char>, lanes: usize) -> usize {
    (DefaultHasher::spec_finish(seq![lane_key(text::utf8(hint), 0, 12)]) % (lanes as u64)) as usize
}

/// The lane that a hint enters.
pub fn lane_for(hint: &str, lanes: usize) -> (r: usize)
    requires
        0 < lanes <= MAX_LANES,
    ensures
        r == lane_of(hint@, lanes),
        r < lanes,
{
    let bytes = text::bytes_of(hint);
    let mut key: Vec<u8> = Vec::new();
    let mut i: usize = 0;
    let mut n: usize = 12;
    while n > 0 && i < bytes.len()
        invariant
            i <= bytes.len(),
            n <= 12,
            lane_key(bytes@, 0, 12) == key@ + lane_key(bytes@, i as int, n as nat),
        decreases bytes.len() - i,
    {
        if bytes[i] != 0x2d {
            let ghost before = key@;
            key.push(bytes[i]);
            n -= 1;
            assert(key@ + lane_key(bytes@, i + 1, n as nat) =~= before + (seq![bytes@[i as int]]
                + lane_key(bytes@, i + 1, n as nat)));
        }
        i += 1;
    }
    assert(key@ =~= lane_key(bytes@, 0, 12));
    let mut hasher = DefaultHasher::new();
    hasher.write(key.as_slice());
    assert(hasher@ =~= seq![lane_key(bytes@, 0, 12)]);
    (hasher.finish() % (lanes as u64)) as usize
}

/// How many bytes other than dashes stand from a place on.
spec fn keyed(bytes: Seq<u8>, i: int) -> nat
    decreases bytes.len() - i,
{
    if i < 0 || i >= bytes.len() {
        0
    } else {
        keyed(bytes, i + 1) + if bytes[i] == 0x2d {
            0nat
        } else {
            1nat
        }
    }
}

proof fn key_of_prefix(a: Seq<u8>, b: Seq<u8>, i: int, n: nat)
    requires
        a.is_prefix_of(b),
        0 <= i <= a.len(),
        keyed(a, i) >= n,
    ensures
        lane_key(a, i, n) == lane_key(b, i, n),
    decreases a.len() - i,
{
    if n > 0 && i < a.len() {
        assert(a[i] == b[i]) by {
            assert(a == b.subrange(0, a.len() as int));
        }
        if a[i] == 0x2d {
            key_of_prefix(a, b, i + 1, n);
        } else {
            key_of_prefix(a, b, i + 1, (n - 1) as nat);
        }
    }
}

proof fn ascii_bytes(s: Seq<char>)
    requires
        forall|i: int| 0 <= i < s.len() ==> text::is_hex_digit(#[trigger] s[i]) || s[i] == '-',
    ensures
        text::utf8(s).len() == s.len(),
        forall|i: int| 0 <= i < s.len() ==> #[trigger] text::utf8(s)[i] == s[i] as u8,
    decreases s.len(),
{
    if s.len() > 0 {
        let rest = s.drop_first();
        assert forall|i: int| 0 <= i < rest.len() implies text::is_hex_digit(#[trigger] rest[i])
            || rest[i] == '-' by {
            assert(rest[i] == s[i + 1]);
        }
        ascii_bytes(rest);
        let c = s[0] as u32;
        assert(c < 0x80);
        assert(vstd::utf8::encode_scalar(c) =~= seq![vstd::utf8::leading_byte_width_1(c)]);
        assert(vstd::utf8::leading_byte_width_1(c) == c as u8) by {
            assert((c & 0x7F) as u8 == c as u8) by (bit_vector)
                requires
                    c < 0x80,
            ;
        }
        assert forall|i: int| 0 <= i < s.len() implies #[trigger] text::utf8(s)[i] == s[i] as u8 by {
            if i > 0 {
                assert(text::utf8(s)[i] == text::utf8(rest)[i - 1]);
                assert(rest[i - 1] == s[i]);
            }
        }
    }
}

proof fn keyed_is_undashed(s: Seq<char>)
    requires
        forall|i: int| 0 <= i < s.len() ==> text::is_hex_digit(#[trigger] s[i]) || s[i] == '-',
    ensures
        keyed(text::utf8(s), 0) == thread::undashed(s),
{
    ascii_bytes(s);
    keyed_from(s, text::utf8(s), 0);
    assert(s.skip(0) =~= s);
}

proof fn keyed_from(s: Seq<char>, bytes: Seq<u8>, i: int)
    requires
        bytes.len() == s.len(),
        forall|k: int| 0 <= k < s.len() ==> #[trigger] bytes[k] == s[k] as u8,
        forall|k: int| 0 <= k < s.len() ==> text::is_hex_digit(#[trigger] s[k]) || s[k] == '-',
        0 <= i <= s.len(),
    ensures
        keyed(bytes, i) == thread::undashed(s.skip(i)),
    decreases s.len() - i,
{
    if i < s.len() {
        keyed_from(s, bytes, i + 1);
        thread::undashed_front(s.skip(i));
        assert(s.skip(i).skip(1) =~= s.skip(i + 1));
        assert(s.skip(i)[0] == s[i]);
        assert(bytes[i] == s[i] as u8);
        assert(text::is_hex_digit(s[i]) || s[i] == '-');
    }
}

/// A full thread identity and a shortened one that stands for it enter the same lane,
/// so that one provider names that conversation for all its panes.
pub proof fn shortened_identities_enter_one_lane(
    shortened: Seq<char>,
    id: Seq<char>,
    lanes: usize,
)
    requires
        thread::is_thread_prefix(shortened),
        shortened.is_prefix_of(id),
        0 < lanes,
    ensures
        lane_of(shortened, lanes) == lane_of(id, lanes),
{
    let rest = id.skip(shortened.len() as int);
    assert(id =~= shortened + rest);
    crate::smart_naming::transcript::size_append(shortened, rest);
    let a = text::utf8(shortened);
    let b = text::utf8(id);
    assert(b.subrange(0, a.len() as int) =~= a);
    keyed_is_undashed(shortened);
    key_of_prefix(a, b, 0, 12);
}

/// The targets of one lane.
pub open spec fn lane_targets(targets: Seq<TargetModel>, lane: usize, lanes: usize) -> Seq<
    TargetModel,
>
    decreases targets.len(),
{
    if targets.len() == 0 {
        Seq::empty()
    } else {
        let before = lane_targets(targets.drop_last(), lane, lanes);
        if lane_of(targets.last().thread_hint, lanes) == lane {
            before.push(targets.last())
        } else {
            before
        }
    }
}

pub fn targets_of_lane(targets: &Vec<NamingTarget>, lane: usize, lanes: usize) -> (r: Vec<
    NamingTarget,
>)
    requires
        0 < lanes <= MAX_LANES,
    ensures
        target::targets_view(r@) == lane_targets(target::targets_view(targets@), lane, lanes),
{
    let mut r: Vec<NamingTarget> = Vec::new();
    let ghost all = target::targets_view(targets@);
    let mut i: usize = 0;
    proof {
        assert(all.take(0) =~= Seq::<TargetModel>::empty());
        assert(target::targets_view(r@) =~= Seq::<TargetModel>::empty());
    }
    while i < targets.len()
        invariant
            i <= targets.len(),
            all == target::targets_view(targets@),
            target::targets_view(r@) == lane_targets(all.take(i as int), lane, lanes),
        decreases targets.len() - i,
    {
        proof {
            assert(all.take(i + 1).drop_last() =~= all.take(i as int));
            assert(all.take(i + 1).last() == targets@[i as int]@);
        }
        if lane_for(&targets[i].thread_hint, lanes) == lane {
            let ghost before = target::targets_view(r@);
            r.push(targets[i].clone());
            assert(target::targets_view(r@) =~= before.push(targets@[i as int]@));
        }
        i += 1;
    }
    assert(all.take(all.len() as int) =~= all);
    r
}

/// Whether a lane needs a new discovery: to check again, or once every lane has had
/// the last one.
pub fn needs_discovery(
    phase: DiscoveryPhase,
    discovered: bool,
    lanes_served: usize,
    lanes: usize,
) -> (r: bool)
    ensures
        r == (phase == DiscoveryPhase::Revalidate || !discovered || lanes_served == lanes),
{
    phase == DiscoveryPhase::Revalidate || !discovered || lanes_served == lanes
}

/// The last discovery and the lanes that have had it.
#[verifier::ext_equal]
pub struct CacheModel {
    /// The targets that were found, where there was a discovery.
    pub targets: Option<Seq<TargetModel>>,
    pub served: Set<usize>,
}

/// A discovery that the lanes share.
pub struct DiscoveryCache {
    targets: Option<Vec<NamingTarget>>,
    served: Vec<usize>,
}

impl View for DiscoveryCache {
    type V = CacheModel;

    closed spec fn view(&self) -> CacheModel {
        CacheModel {
            targets: match self.targets {
                Some(targets) => Some(target::targets_view(targets@)),
                None => None,
            },
            served: self.served@.to_set(),
        }
    }
}

impl DiscoveryCache {
    #[verifier::type_invariant]
    spec fn serves_once(self) -> bool {
        self.served@.no_duplicates()
    }

    pub fn new() -> (r: Self)
        ensures
            r@ == (CacheModel { targets: None, served: Set::empty() }),
    {
        let r = DiscoveryCache { targets: None, served: Vec::new() };
        assert(r.served@.to_set() =~= Set::empty());
        r
    }

    /// Whether a lane needs a new discovery.
    pub fn is_due(&self, phase: DiscoveryPhase, lanes: usize) -> (r: bool)
        ensures
            r == (phase == DiscoveryPhase::Revalidate || self@.targets is None
                || self@.served.len() == lanes),
    {
        proof {
            use_type_invariant(self);
            self.served@.unique_seq_to_set();
        }
        needs_discovery(phase, self.targets.is_some(), self.served.len(), lanes)
    }

    /// Takes a new discovery, which no lane has had yet.
    pub fn refresh(&mut self, targets: Vec<NamingTarget>)
        ensures
            final(self)@ == (CacheModel {
                targets: Some(target::targets_view(targets@)),
                served: Set::empty(),
            }),
    {
        *self = DiscoveryCache { targets: Some(targets), served: Vec::new() };
        assert(self.served@.to_set() =~= Set::empty());
    }

    /// Gives a lane its targets of the discovery.
    pub fn serve(&mut self, lane: usize, lanes: usize) -> (r: Vec<NamingTarget>)
        requires
            0 < lanes <= MAX_LANES,
        ensures
            final(self)@ == (CacheModel {
                served: old(self)@.served.insert(lane),
                ..old(self)@
            }),
            target::targets_view(r@) == match old(self)@.targets {
                Some(targets) => lane_targets(targets, lane, lanes),
                None => Seq::empty(),
            },
    {
        proof {
            use_type_invariant(&*self);
        }
        let mut served: Vec<usize> = Vec::new();
        let mut known = false;
        let mut i: usize = 0;
        while i < self.served.len()
            invariant
                i <= self.served.len(),
                self.served@ == old(self).served@,
                self.targets == old(self).targets,
                served@ == self.served@.take(i as int),
                known == self.served@.take(i as int).contains(lane),
            decreases self.served.len() - i,
        {
            let one: usize = self.served[i];
            let ghost before = served@;
            served.push(one);
            proof {
                let next = self.served@.take(i + 1);
                assert(next =~= before.push(one));
                if one == lane {
                    assert(next[i as int] == lane);
                }
                if before.contains(lane) {
                    let j = choose|j: int| 0 <= j < before.len() && before[j] == lane;
                    assert(next[j] == lane);
                }
                if next.contains(lane) && one != lane {
                    let j = choose|j: int| 0 <= j < next.len() && next[j] == lane;
                    assert(before[j] == lane);
                }
            }
            if one == lane {
                known = true;
            }
            i += 1;
        }
        assert(served@ =~= self.served@);
        let ghost all = served@;
        if !known {
            served.push(lane);
            assert(served@.no_duplicates());
        }
        assert(served@.to_set() =~= all.to_set().insert(lane)) by {
            assert forall|x: usize|
                served@.to_set().contains(x) == all.to_set().insert(lane).contains(x) by {
                if all.contains(x) {
                    let j = choose|j: int| 0 <= j < all.len() && all[j] == x;
                    assert(served@[j] == x);
                }
                if !known {
                    assert(served@[all.len() as int] == lane);
                }
                if served@.contains(x) && x != lane {
                    let j = choose|j: int| 0 <= j < served@.len() && served@[j] == x;
                    assert(all[j] == x);
                }
            }
        }
        let r = match &self.targets {
            Some(targets) => targets_of_lane(targets, lane, lanes),
            None => {
                let none: Vec<NamingTarget> = Vec::new();
                assert(target::targets_view(none@) =~= Seq::empty());
                none
            },
        };
        self.served = served;
        r
    }
}

/// While a lane has not had a discovery, fewer lanes than there are have had it, so that
/// nothing but a second look asks for a new one.
pub proof fn a_discovery_lasts_for_every_lane(cache: CacheModel, lane: usize, lanes: usize)
    requires
        cache.targets is Some,
        lane < lanes,
        !cache.served.contains(lane),
        forall|x: usize| cache.served.contains(x) ==> x < lanes,
    ensures
        cache.served.len() < lanes,
{
    let all = Set::<usize>::new(|x: usize| x < lanes);
    lanes_are_counted(lanes);
    assert(cache.served.subset_of(all.remove(lane)));
    vstd::set_lib::lemma_len_subset(cache.served, all.remove(lane));
}

proof fn lanes_are_counted(n: usize)
    ensures
        Set::<usize>::new(|x: usize| x < n).finite(),
        Set::<usize>::new(|x: usize| x < n).len() == n,
    decreases n,
{
    let all = Set::<usize>::new(|x: usize| x < n);
    if n == 0 {
        assert(all =~= Set::empty());
    } else {
        let m = (n - 1) as usize;
        lanes_are_counted(m);
        assert(all =~= Set::<usize>::new(|x: usize| x < m).insert(m));
    }
}

} // verus!
