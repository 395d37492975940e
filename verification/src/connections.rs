//! The client's connection handler: which connections to the configured
//! servers to keep, which servers to dial, and which count as
//! disconnected afterwards.
use vstd::prelude::*;

verus! {

/// What a read on an open connection gave: the number of bytes read, or 1
/// when nothing could be read yet (a read of 0 bytes means the server
/// closed the connection).
pub struct StreamStatus {
    pub address: String,
    pub received: u64,
}

/// The texts of strings.
pub open spec fn texts(v: Seq<String>) -> Seq<Seq<char>> {
    v.map_values(|s: String| s@)
}

/// Walks the open connections in order against the configured addresses
/// still unmatched: a connection that read 0 bytes is kept exactly when
/// its address is among them, and its address is then taken out; any
/// other connection is kept and leaves the addresses alone. Gives whether
/// each connection is kept and the addresses left.
pub open spec fn keep_streams(addresses: Seq<Seq<char>>, streams: Seq<(Seq<char>, u64)>) -> (
    Seq<bool>,
    Seq<Seq<char>>,
)
    decreases streams.len(),
{
    if streams.len() == 0 {
        (Seq::<bool>::empty(), addresses)
    } else {
        let (keep, left) = keep_streams(addresses, streams.drop_last());
        let (a, n) = streams.last();
        if n == 0 {
            (keep.push(left.contains(a)), left.filter(|x: Seq<char>| x != a))
        } else {
            (keep.push(true), left)
        }
    }
}

/// The view of the stream statuses.
pub open spec fn statuses(v: Seq<StreamStatus>) -> Seq<(Seq<char>, u64)> {
    v.map_values(|s: StreamStatus| (s.address@, s.received))
}

fn contains_text(v: &Vec<String>, a: &String) -> (r: bool)
    ensures
        r == texts(v@).contains(a@),
{
    let n = v.len();
    for i in 0..n
        invariant
            n == v@.len(),
            forall|j: int| 0 <= j < i ==> v@[j]@ != a@,
    {
        if v[i] == *a {
            assert(texts(v@)[i as int] == a@);
            return true;
        }
    }
    assert(!texts(v@).contains(a@)) by {
        if texts(v@).contains(a@) {
            let j = choose|j: int| 0 <= j < texts(v@).len() && texts(v@)[j] == a@;
            assert(v@[j]@ == a@);
        }
    }
    false
}

fn without_text(v: &Vec<String>, a: &String) -> (r: Vec<String>)
    ensures
        texts(r@) == texts(v@).filter(|x: Seq<char>| x != a@),
{
    let mut r: Vec<String> = Vec::new();
    let n = v.len();
    for i in 0..n
        invariant
            n == v@.len(),
            texts(r@) == texts(v@).take(i as int).filter(|x: Seq<char>| x != a@),
    {
        assert(texts(v@).take(i + 1) == texts(v@).take(i as int).push(v@[i as int]@));
        proof {
            texts(v@).take(i as int).lemma_filter_push(v@[i as int]@, |x: Seq<char>| x != a@);
        }
        if !(v[i] == *a) {
            let c = v[i].clone();
            r.push(c);
            assert(texts(r@) == texts(r@.drop_last()).push(c@));
        }
    }
    assert(texts(v@).take(n as int) == texts(v@));
    r
}

/// Decides which open connections to keep (see `keep_streams`) and which
/// servers to dial: the addresses left that are known to be disconnected.
pub fn plan_connections(
    addresses: &Vec<String>,
    streams: &Vec<StreamStatus>,
    disconnected: &Vec<String>,
) -> (r: (Vec<bool>, Vec<String>))
    ensures
        ({
            let (keep, left) = keep_streams(texts(addresses@), statuses(streams@));
            r.0@ == keep && texts(r.1@) == left.filter(
                |x: Seq<char>| texts(disconnected@).contains(x),
            )
        }),
{
    let mut left: Vec<String> = addresses.clone();
    let mut keep: Vec<bool> = Vec::new();
    assert(texts(left@) == texts(addresses@)) by {
        assert forall|j: int| 0 <= j < left@.len() implies left@[j]@ == addresses@[j]@ by {
            assert(vstd::pervasive::cloned(addresses@[j], left@[j]));
        }
    }
    let n = streams.len();
    for i in 0..n
        invariant
            n == streams@.len(),
            (keep@, texts(left@)) == keep_streams(
                texts(addresses@),
                statuses(streams@).take(i as int),
            ),
    {
        assert(statuses(streams@).take(i + 1).drop_last() == statuses(streams@).take(i as int));
        assert(statuses(streams@).take(i + 1).last() == (
            streams@[i as int].address@,
            streams@[i as int].received,
        ));
        let s = &streams[i];
        let ghost prev = keep_streams(texts(addresses@), statuses(streams@).take(i as int));
        if s.received == 0 {
            let k = contains_text(&left, &s.address);
            keep.push(k);
            let ghost old_left = texts(left@);
            left = without_text(&left, &s.address);
            assert(texts(left@) == old_left.filter(|x: Seq<char>| x != s.address@));
            let ghost a = statuses(streams@).take(i + 1).last().0;
            assert(a == s.address@);
            assert((|x: Seq<char>| x != a) =~= (|x: Seq<char>| x != s.address@));
            assert(keep_streams(texts(addresses@), statuses(streams@).take(i + 1)) == (
                prev.0.push(prev.1.contains(s.address@)),
                prev.1.filter(|x: Seq<char>| x != s.address@),
            ));
        } else {
            keep.push(true);
        }
    }
    assert(statuses(streams@).take(n as int) == statuses(streams@));
    let mut dial: Vec<String> = Vec::new();
    let m = left.len();
    for i in 0..m
        invariant
            m == left@.len(),
            texts(dial@) == texts(left@).take(i as int).filter(
                |x: Seq<char>| texts(disconnected@).contains(x),
            ),
    {
        assert(texts(left@).take(i + 1) == texts(left@).take(i as int).push(left@[i as int]@));
        proof {
            texts(left@).take(i as int).lemma_filter_push(
                left@[i as int]@,
                |x: Seq<char>| texts(disconnected@).contains(x),
            );
        }
        if contains_text(disconnected, &left[i]) {
            let c = left[i].clone();
            dial.push(c);
            assert(texts(dial@) == texts(dial@.drop_last()).push(c@));
        }
    }
    assert(texts(left@).take(m as int) == texts(left@));
    (keep, dial)
}

/// How dialing a server ended.
pub enum ConnectOutcome {
    Connected,
    Failed,
    TimedOut,
}

/// The servers that count as disconnected after dialing: those whose
/// connection attempt failed (a timed-out attempt is not retried).
pub open spec fn failed_addresses(attempts: Seq<(Seq<char>, ConnectOutcome)>) -> Seq<Seq<char>>
    decreases attempts.len(),
{
    if attempts.len() == 0 {
        Seq::<Seq<char>>::empty()
    } else {
        let rest = failed_addresses(attempts.drop_last());
        if attempts.last().1 is Failed {
            rest.push(attempts.last().0)
        } else {
            rest
        }
    }
}

/// The servers that count as disconnected after dialing `dialed[i]` ended
/// with `outcomes[i]`.
pub fn still_disconnected(dialed: &Vec<String>, outcomes: &Vec<ConnectOutcome>) -> (r: Vec<String>)
    requires
        dialed@.len() == outcomes@.len(),
    ensures
        texts(r@) == failed_addresses(
            Seq::new(dialed@.len(), |i: int| (dialed@[i]@, outcomes@[i])),
        ),
{
    let ghost all = Seq::new(dialed@.len(), |i: int| (dialed@[i]@, outcomes@[i]));
    let mut r: Vec<String> = Vec::new();
    let n = dialed.len();
    for i in 0..n
        invariant
            n == dialed@.len(),
            n == outcomes@.len(),
            all == Seq::new(dialed@.len(), |i: int| (dialed@[i]@, outcomes@[i])),
            texts(r@) == failed_addresses(all.take(i as int)),
    {
        assert(all.take(i + 1).drop_last() == all.take(i as int));
        assert(all.take(i + 1).last() == (dialed@[i as int]@, outcomes@[i as int]));
        match outcomes[i] {
            ConnectOutcome::Failed => {
                let c = dialed[i].clone();
                r.push(c);
                assert(texts(r@) == texts(r@.drop_last()).push(c@));
            },
            _ => {},
        }
    }
    assert(all.take(n as int) == all);
    r
}

} // verus!
