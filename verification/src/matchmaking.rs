use vstd::prelude::*;

verus! {

/// Whether byte string `a` sorts before or equal to `b`, byte by byte, a prefix first; this is
/// the order of Rust strings, in which peers sort each other's ids.
pub open spec fn lex_le(a: Seq<u8>, b: Seq<u8>) -> bool
    decreases a.len(),
{
    if a.len() == 0 {
        true
    } else if b.len() == 0 {
        false
    } else if a[0] != b[0] {
        a[0] < b[0]
    } else {
        lex_le(a.drop_first(), b.drop_first())
    }
}

/// The number of ids among `ids` that sort before or equal to `key`.
pub open spec fn count_le(ids: Seq<Seq<u8>>, key: Seq<u8>) -> nat
    decreases ids.len(),
{
    if ids.len() == 0 {
        0
    } else {
        count_le(ids.drop_last(), key) + if lex_le(ids.last(), key) { 1nat } else { 0nat }
    }
}

/// The ids with every copy of `host` taken out.
pub open spec fn without(ids: Seq<Seq<u8>>, host: Seq<u8>) -> Seq<Seq<u8>>
    decreases ids.len(),
{
    if ids.len() == 0 {
        Seq::empty()
    } else if ids.last() == host {
        without(ids.drop_last(), host)
    } else {
        without(ids.drop_last(), host).push(ids.last())
    }
}

/// The position of the first smallest id among the first `n` ids, which a stable sort puts first.
pub open spec fn first_smallest(ids: Seq<Seq<u8>>, n: nat) -> nat
    decreases n,
{
    if n <= 1 {
        0
    } else {
        let m = first_smallest(ids, (n - 1) as nat);
        if lex_le(ids[m as int], ids[n - 1]) { m } else { (n - 1) as nat }
    }
}

/// Ids compare as Rust strings do, byte by byte: an id sorts before or equal to any id it is a
/// prefix of, and after any id that is a proper prefix of it.
pub proof fn lemma_id_order_prefixes(a: Seq<u8>, b: Seq<u8>)
    ensures
        a.len() <= b.len() && b.take(a.len() as int) == a ==> lex_le(a, b),
        b.len() < a.len() && a.take(b.len() as int) == b ==> !lex_le(a, b),
    decreases a.len(),
{
    if a.len() > 0 && b.len() > 0 {
        lemma_id_order_prefixes(a.drop_first(), b.drop_first());
        if a.len() <= b.len() && b.take(a.len() as int) == a {
            assert(b[0] == b.take(a.len() as int)[0]);
            assert(b.drop_first().take(a.drop_first().len() as int) =~= a.drop_first());
        }
        if b.len() < a.len() && a.take(b.len() as int) == b {
            assert(a[0] == a.take(b.len() as int)[0]);
            assert(a.drop_first().take(b.drop_first().len() as int) =~= b.drop_first());
        }
    }
}

/// Ids compare as Rust strings do, byte by byte: at the first position where two ids differ,
/// the one with the smaller byte value sorts first.
pub proof fn lemma_id_order_first_difference(a: Seq<u8>, b: Seq<u8>, i: int)
    requires
        0 <= i < a.len(),
        i < b.len(),
        a.take(i) == b.take(i),
        a[i] != b[i],
    ensures
        lex_le(a, b) == (a[i] < b[i]),
    decreases i,
{
    if i > 0 {
        assert(a[0] == a.take(i)[0]);
        assert(b[0] == b.take(i)[0]);
        assert(a.drop_first().take(i - 1) =~= b.drop_first().take(i - 1)) by {
            assert forall|k: int| 0 <= k < i - 1 implies #[trigger] a.drop_first().take(i - 1)[k] == b.drop_first().take(i - 1)[k] by {
                assert(a.drop_first().take(i - 1)[k] == a[k + 1]);
                assert(b.drop_first().take(i - 1)[k] == b[k + 1]);
                assert(a.take(i)[k + 1] == a[k + 1]);
                assert(b.take(i)[k + 1] == b[k + 1]);
                assert(a.take(i)[k + 1] == b.take(i)[k + 1]);
            }
        }
        lemma_id_order_first_difference(a.drop_first(), b.drop_first(), i - 1);
    }
}

/// Single-byte ids compare by byte value, so "1" sorts before "2" and digits before letters.
pub proof fn lemma_id_order_single_bytes(x: u8, y: u8)
    ensures
        lex_le(seq![x], seq![y]) == (x <= y),
{
    let a = seq![x];
    let b = seq![y];
    if x != y {
        assert(a.take(0) =~= b.take(0));
        lemma_id_order_first_difference(a, b, 0);
    } else {
        lemma_id_order_prefixes(a, b);
        assert(b.take(1) =~= a);
    }
}

/// Compares two ids in string order.
pub fn id_le(a: &Vec<u8>, b: &Vec<u8>) -> (r: bool)
    ensures
        r == lex_le(a@, b@),
{
    let mut i: usize = 0;
    assert(a@.skip(0) =~= a@);
    assert(b@.skip(0) =~= b@);
    while i < a.len()
        invariant
            i <= a@.len(),
            i <= b@.len(),
            a@.take(i as int) == b@.take(i as int),
            lex_le(a@, b@) == lex_le(a@.skip(i as int), b@.skip(i as int)),
        decreases a@.len() - i,
    {
        if i == b.len() {
            return false;
        }
        if a[i] != b[i] {
            return a[i] < b[i];
        }
        proof {
            let sa = a@.skip(i as int);
            let sb = b@.skip(i as int);
            assert(sa.drop_first() =~= a@.skip(i + 1));
            assert(sb.drop_first() =~= b@.skip(i + 1));
            assert(a@.take(i + 1) =~= a@.take(i as int).push(a@[i as int]));
            assert(b@.take(i + 1) =~= b@.take(i as int).push(b@[i as int]));
        }
        i = i + 1;
    }
    true
}

fn ids_equal(a: &Vec<u8>, b: &Vec<u8>) -> (r: bool)
    ensures
        r == (a@ == b@),
{
    if a.len() != b.len() {
        return false;
    }
    let mut i: usize = 0;
    while i < a.len()
        invariant
            i <= a@.len(),
            a@.len() == b@.len(),
            forall|j: int| 0 <= j < i ==> a@[j] == b@[j],
        decreases a@.len() - i,
    {
        if a[i] != b[i] {
            return false;
        }
        i = i + 1;
    }
    assert(a@ =~= b@);
    true
}

fn count_not_after(ids: &Vec<Vec<u8>>, key: &Vec<u8>) -> (n: usize)
    ensures
        n == count_le(ids@.map_values(|v: Vec<u8>| v@), key@),
{
    let ghost views = ids@.map_values(|v: Vec<u8>| v@);
    let mut n: usize = 0;
    let mut i: usize = 0;
    while i < ids.len()
        invariant
            i <= ids@.len(),
            views == ids@.map_values(|v: Vec<u8>| v@),
            n == count_le(views.take(i as int), key@),
            n <= i,
        decreases ids@.len() - i,
    {
        assert(views.take(i + 1).drop_last() =~= views.take(i as int));
        if id_le(&ids[i], key) {
            n = n + 1;
        }
        i = i + 1;
    }
    assert(views.take(i as int) =~= views);
    n
}

/// How a public match seats the local peer.
pub struct PublicAssignment {
    /// The local player's seat: its position when all ids, its own first, are sorted.
    pub local_index: usize,
    /// The host's place in the list "local id, then the peers", when the local peer is not the
    /// host: the first smallest id.
    pub host: Option<usize>,
}

/// Seats the local peer of a public match once at least one peer is connected: every id, the
/// local one first and then the peers, is sorted; the local seat is the last place that holds
/// the local id, and the peer sorted first hosts. Returns `None` while no peer is connected.
pub fn assign_public_lobby(local: &Vec<u8>, peers: &Vec<Vec<u8>>) -> (r: Option<PublicAssignment>)
    ensures
        r is Some <==> peers@.len() >= 1,
        r matches Some(a) ==> {
            let all = seq![local@] + peers@.map_values(|v: Vec<u8>| v@);
            &&& a.local_index == count_le(peers@.map_values(|v: Vec<u8>| v@), local@)
            &&& a.host == (if a.local_index > 0 {
                Some(first_smallest(all, all.len()) as usize)
            } else {
                None::<usize>
            })
        },
{
    if peers.len() < 1 {
        return None;
    }
    let local_index = count_not_after(peers, local);
    let ghost all = seq![local@] + peers@.map_values(|v: Vec<u8>| v@);
    let host = if local_index > 0 {
        // Position 0 is the local id, position `j + 1` the peer `peers[j]`.
        let mut best: usize = 0;
        let mut j: usize = 0;
        while j < peers.len()
            invariant
                j <= peers@.len(),
                all == seq![local@] + peers@.map_values(|v: Vec<u8>| v@),
                best == first_smallest(all, (j + 1) as nat),
                best <= j,
            decreases peers@.len() - j,
        {
            let keep = if best == 0 { id_le(local, &peers[j]) } else { id_le(&peers[best - 1], &peers[j]) };
            proof {
                assert(all[(j + 1) as int] == peers@[j as int]@);
                if best > 0 {
                    assert(all[best as int] == peers@[best - 1]@);
                }
            }
            if !keep {
                best = j + 1;
            }
            j = j + 1;
        }
        Some(best)
    } else {
        None
    };
    Some(PublicAssignment { local_index, host })
}

/// Seats the local client of a private match once the host has been heard from: the clients'
/// ids (the local one first unless it is the host's, then the other peers but the host) are
/// sorted, and the local seat is one past the last place that holds the local id; the host
/// always sits first, and a client whose id is the host's gets seat 1.
pub fn assign_private_lobby(local: &Vec<u8>, host: &Vec<u8>, peers: &Vec<Vec<u8>>) -> (index: usize)
    requires
        peers@.len() < usize::MAX,
    ensures
        index == (if local@ == host@ {
            1
        } else {
            1 + count_le(without(peers@.map_values(|v: Vec<u8>| v@), host@), local@)
        }),
{
    if ids_equal(local, host) {
        return 1;
    }
    let ghost views = peers@.map_values(|v: Vec<u8>| v@);
    let mut n: usize = 0;
    let mut i: usize = 0;
    while i < peers.len()
        invariant
            i <= peers@.len(),
            views == peers@.map_values(|v: Vec<u8>| v@),
            n == count_le(without(views.take(i as int), host@), local@),
            n <= i,
        decreases peers@.len() - i,
    {
        assert(views.take(i + 1).drop_last() =~= views.take(i as int));
        assert(views.take(i + 1).last() == peers@[i as int]@);
        proof {
            let w = without(views.take(i as int), host@);
            assert(w.push(peers@[i as int]@).drop_last() =~= w);
        }
        if !ids_equal(&peers[i], host) && id_le(&peers[i], local) {
            n = n + 1;
        }
        i = i + 1;
    }
    assert(views.take(i as int) =~= views);
    1 + n
}

/// String order is total.
proof fn lemma_lex_total(a: Seq<u8>, b: Seq<u8>)
    ensures
        lex_le(a, b) || lex_le(b, a),
    decreases a.len(),
{
    if a.len() > 0 && b.len() > 0 && a[0] == b[0] {
        lemma_lex_total(a.drop_first(), b.drop_first());
    }
}

/// Two strings each sorting before or equal to the other are the same.
proof fn lemma_lex_antisymmetric(a: Seq<u8>, b: Seq<u8>)
    requires
        lex_le(a, b),
        lex_le(b, a),
    ensures
        a == b,
    decreases a.len(),
{
    if a.len() == 0 {
        assert(b.len() == 0);
        assert(a =~= b);
    } else {
        assert(b.len() > 0);
        assert(a[0] == b[0]);
        lemma_lex_antisymmetric(a.drop_first(), b.drop_first());
        assert(a =~= seq![a[0]] + a.drop_first());
        assert(b =~= seq![b[0]] + b.drop_first());
    }
}

/// String order is transitive.
proof fn lemma_lex_transitive(a: Seq<u8>, b: Seq<u8>, c: Seq<u8>)
    requires
        lex_le(a, b),
        lex_le(b, c),
    ensures
        lex_le(a, c),
    decreases a.len(),
{
    if a.len() > 0 && b.len() > 0 && c.len() > 0 && a[0] == b[0] && b[0] == c[0] {
        lemma_lex_transitive(a.drop_first(), b.drop_first(), c.drop_first());
    }
}

/// Counting over a list with one entry taken out.
proof fn lemma_count_le_remove(ids: Seq<Seq<u8>>, i: int, key: Seq<u8>)
    requires
        0 <= i < ids.len(),
    ensures
        count_le(ids, key) == count_le(ids.remove(i), key) + if lex_le(ids[i], key) { 1nat } else { 0nat },
    decreases ids.len(),
{
    if i == ids.len() - 1 {
        assert(ids.remove(i) =~= ids.drop_last());
    } else {
        lemma_count_le_remove(ids.drop_last(), i, key);
        assert(ids.remove(i).drop_last() =~= ids.drop_last().remove(i));
        assert(ids.remove(i).last() == ids.last());
    }
}

/// A larger key counts at least as many ids, and strictly more when some id lies between them.
proof fn lemma_count_le_grows(ids: Seq<Seq<u8>>, a: Seq<u8>, b: Seq<u8>, j: int)
    requires
        lex_le(a, b),
        0 <= j < ids.len(),
        lex_le(ids[j], b),
        !lex_le(ids[j], a),
    ensures
        count_le(ids, a) < count_le(ids, b),
    decreases ids.len(),
{
    lemma_count_le_monotone(ids.drop_last(), a, b);
    if j < ids.len() - 1 {
        lemma_count_le_grows(ids.drop_last(), a, b, j);
        if lex_le(ids.last(), a) {
            lemma_lex_transitive(ids.last(), a, b);
        }
    }
}

proof fn lemma_count_le_monotone(ids: Seq<Seq<u8>>, a: Seq<u8>, b: Seq<u8>)
    requires
        lex_le(a, b),
    ensures
        count_le(ids, a) <= count_le(ids, b),
    decreases ids.len(),
{
    if ids.len() > 0 {
        lemma_count_le_monotone(ids.drop_last(), a, b);
        if lex_le(ids.last(), a) {
            lemma_lex_transitive(ids.last(), a, b);
        }
    }
}

/// The seat that peer `i` of a public match computes: the number of the other peers' ids that
/// sort before or equal to its own.
pub open spec fn public_seat(ids: Seq<Seq<u8>>, i: int) -> nat {
    count_le(ids.remove(i), ids[i])
}

/// Peers with different ids take different seats: every peer of a public match, sorting the same
/// ids, computes its own seat, and no two peers compute the same one. Seat 0 goes to the smallest id.
pub proof fn lemma_public_seats_distinct(ids: Seq<Seq<u8>>, i: int, j: int)
    requires
        0 <= i < ids.len(),
        0 <= j < ids.len(),
        i != j,
        forall|x: int, y: int| 0 <= x < ids.len() && 0 <= y < ids.len() && x != y ==> ids[x] != ids[y],
    ensures
        public_seat(ids, i) != public_seat(ids, j),
        public_seat(ids, i) < ids.len(),
        public_seat(ids, i) == 0 <==> forall|k: int| 0 <= k < ids.len() && k != i ==> !lex_le(ids[k], ids[i]),
{
    lemma_lex_total(ids[i], ids[i]);
    lemma_lex_total(ids[j], ids[j]);
    lemma_count_le_remove(ids, i, ids[i]);
    lemma_count_le_remove(ids, j, ids[j]);
    lemma_lex_total(ids[i], ids[j]);
    if lex_le(ids[i], ids[j]) {
        if lex_le(ids[j], ids[i]) {
            lemma_lex_antisymmetric(ids[i], ids[j]);
        }
        lemma_count_le_grows(ids, ids[i], ids[j], j);
    } else {
        lemma_count_le_grows(ids, ids[j], ids[i], i);
    }
    lemma_count_le_bound(ids.remove(i), ids[i]);
    lemma_count_le_zero(ids.remove(i), ids[i]);
    assert forall|k: int| 0 <= k < ids.len() && k != i implies (ids.remove(i).contains(ids[k])) by {
        if k < i {
            assert(ids.remove(i)[k] == ids[k]);
        } else {
            assert(ids.remove(i)[k - 1] == ids[k]);
        }
    }
    assert forall|m: int| 0 <= m < ids.remove(i).len() implies exists|k: int|
        0 <= k < ids.len() && k != i && ids[k] == #[trigger] ids.remove(i)[m] by {
        if m < i {
            assert(ids[m] == ids.remove(i)[m]);
        } else {
            assert(ids[m + 1] == ids.remove(i)[m]);
        }
    }
}

proof fn lemma_count_le_bound(ids: Seq<Seq<u8>>, key: Seq<u8>)
    ensures
        count_le(ids, key) <= ids.len(),
    decreases ids.len(),
{
    if ids.len() > 0 {
        lemma_count_le_bound(ids.drop_last(), key);
    }
}

/// No id is counted exactly when no id sorts before or equal to the key.
proof fn lemma_count_le_zero(ids: Seq<Seq<u8>>, key: Seq<u8>)
    ensures
        count_le(ids, key) == 0 <==> forall|m: int| 0 <= m < ids.len() ==> !lex_le(#[trigger] ids[m], key),
    decreases ids.len(),
{
    if ids.len() > 0 {
        lemma_count_le_zero(ids.drop_last(), key);
        assert forall|m: int| 0 <= m < ids.drop_last().len() implies ids.drop_last()[m] == ids[m] by {}
    }
}

/// Two different ids lying above `a` and at most `b` make `b` count at least two more ids than `a`.
proof fn lemma_count_le_grows_twice(ids: Seq<Seq<u8>>, a: Seq<u8>, b: Seq<u8>, j1: int, j2: int)
    requires
        lex_le(a, b),
        0 <= j1 < ids.len(),
        0 <= j2 < ids.len(),
        j1 != j2,
        lex_le(ids[j1], b),
        !lex_le(ids[j1], a),
        lex_le(ids[j2], b),
        !lex_le(ids[j2], a),
    ensures
        count_le(ids, a) + 2 <= count_le(ids, b),
    decreases ids.len(),
{
    let n = ids.len() - 1;
    if j1 == n {
        lemma_count_le_grows(ids.drop_last(), a, b, j2);
    } else if j2 == n {
        lemma_count_le_grows(ids.drop_last(), a, b, j1);
    } else {
        lemma_count_le_grows_twice(ids.drop_last(), a, b, j1, j2);
        if lex_le(ids.last(), a) {
            lemma_lex_transitive(ids.last(), a, b);
        }
    }
}

/// Taking out an id that does not occur changes nothing.
proof fn lemma_without_absent(ids: Seq<Seq<u8>>, x: Seq<u8>)
    requires
        !ids.contains(x),
    ensures
        without(ids, x) == ids,
    decreases ids.len(),
{
    if ids.len() > 0 {
        assert(!ids.drop_last().contains(x)) by {
            if ids.drop_last().contains(x) {
                let k = choose|k: int| 0 <= k < ids.drop_last().len() && ids.drop_last()[k] == x;
                assert(ids[k] == x);
            }
        }
        lemma_without_absent(ids.drop_last(), x);
        assert(ids.last() != x) by {
            assert(ids[ids.len() - 1] == ids.last());
        }
        assert(ids.drop_last().push(ids.last()) =~= ids);
    }
}

/// Taking out an id that occurs once removes exactly its own count.
proof fn lemma_count_without_once(ids: Seq<Seq<u8>>, m: int, key: Seq<u8>)
    requires
        0 <= m < ids.len(),
        forall|x: int, y: int| 0 <= x < ids.len() && 0 <= y < ids.len() && x != y ==> ids[x] != ids[y],
    ensures
        count_le(without(ids, ids[m]), key) + (if lex_le(ids[m], key) { 1nat } else { 0nat }) == count_le(ids, key),
    decreases ids.len(),
{
    let n = ids.len() - 1;
    let init = ids.drop_last();
    if m == n {
        assert(!init.contains(ids[m])) by {
            if init.contains(ids[m]) {
                let k = choose|k: int| 0 <= k < init.len() && init[k] == ids[m];
                assert(ids[k] == ids[m]);
            }
        }
        lemma_without_absent(init, ids[m]);
    } else {
        assert(init[m] == ids[m]);
        lemma_count_without_once(init, m, key);
        assert(ids.last() != ids[m]) by {
            assert(ids[n] == ids.last());
        }
        let w = without(init, ids[m]);
        assert(w.push(ids.last()).drop_last() =~= w);
    }
}

/// The seat that client `i` of a private match hosted by peer `h` computes.
pub open spec fn private_seat(ids: Seq<Seq<u8>>, h: int, i: int) -> nat {
    1 + count_le(without(ids.remove(i), ids[h]), ids[i])
}

/// In a private match every client takes a seat after the host's (seat 0), and clients with
/// different ids take different seats.
pub proof fn lemma_private_seats_distinct(ids: Seq<Seq<u8>>, h: int, i: int, j: int)
    requires
        0 <= h < ids.len(),
        0 <= i < ids.len(),
        0 <= j < ids.len(),
        i != j,
        i != h,
        j != h,
        forall|x: int, y: int| 0 <= x < ids.len() && 0 <= y < ids.len() && x != y ==> ids[x] != ids[y],
    ensures
        private_seat(ids, h, i) >= 1,
        private_seat(ids, h, i) != private_seat(ids, h, j),
{
    lemma_private_seat_count(ids, h, i);
    lemma_private_seat_count(ids, h, j);
    lemma_lex_total(ids[i], ids[j]);
    if lex_le(ids[i], ids[j]) {
        if lex_le(ids[j], ids[i]) {
            lemma_lex_antisymmetric(ids[i], ids[j]);
        }
        lemma_seat_order(ids, h, i, j);
    } else {
        lemma_seat_order(ids, h, j, i);
    }
}

/// A client's seat counts every id up to its own, less its own and the host's when the host sorts
/// before it.
proof fn lemma_private_seat_count(ids: Seq<Seq<u8>>, h: int, i: int)
    requires
        0 <= h < ids.len(),
        0 <= i < ids.len(),
        i != h,
        forall|x: int, y: int| 0 <= x < ids.len() && 0 <= y < ids.len() && x != y ==> ids[x] != ids[y],
    ensures
        private_seat(ids, h, i) + (if lex_le(ids[h], ids[i]) { 1nat } else { 0nat }) == count_le(ids, ids[i]),
{
    let r = ids.remove(i);
    let m = if h < i { h } else { h - 1 };
    assert(r[m] == ids[h]);
    assert forall|x: int, y: int| 0 <= x < r.len() && 0 <= y < r.len() && x != y implies r[x] != r[y] by {
        let xi = if x < i { x } else { x + 1 };
        let yi = if y < i { y } else { y + 1 };
        assert(r[x] == ids[xi]);
        assert(r[y] == ids[yi]);
    }
    lemma_count_without_once(r, m, ids[i]);
    lemma_count_le_remove(ids, i, ids[i]);
    lemma_lex_total(ids[i], ids[i]);
}

/// Of two clients, the one with the smaller id takes the smaller seat.
proof fn lemma_seat_order(ids: Seq<Seq<u8>>, h: int, i: int, j: int)
    requires
        0 <= h < ids.len(),
        0 <= i < ids.len(),
        0 <= j < ids.len(),
        i != j,
        i != h,
        j != h,
        lex_le(ids[i], ids[j]),
        !lex_le(ids[j], ids[i]),
        private_seat(ids, h, i) + (if lex_le(ids[h], ids[i]) { 1nat } else { 0nat }) == count_le(ids, ids[i]),
        private_seat(ids, h, j) + (if lex_le(ids[h], ids[j]) { 1nat } else { 0nat }) == count_le(ids, ids[j]),
    ensures
        private_seat(ids, h, i) < private_seat(ids, h, j),
{
    lemma_lex_total(ids[j], ids[j]);
    if lex_le(ids[h], ids[i]) {
        lemma_lex_transitive(ids[h], ids[i], ids[j]);
        lemma_count_le_grows(ids, ids[i], ids[j], j);
    } else if lex_le(ids[h], ids[j]) {
        lemma_count_le_grows_twice(ids, ids[i], ids[j], j, h);
    } else {
        lemma_count_le_grows(ids, ids[i], ids[j], j);
    }
}

/// The id that hosts a public match is the smallest: it sorts before or equal to every id, and
/// strictly before every id listed ahead of it, so the stable sort puts it first.
pub proof fn lemma_host_is_smallest(ids: Seq<Seq<u8>>, n: nat)
    requires
        1 <= n <= ids.len(),
    ensures
        first_smallest(ids, n) < n,
        forall|k: int| 0 <= k < n ==> lex_le(ids[first_smallest(ids, n) as int], #[trigger] ids[k]),
        forall|k: int| 0 <= k < first_smallest(ids, n) ==> !lex_le(#[trigger] ids[k], ids[first_smallest(ids, n) as int]),
    decreases n,
{
    if n == 1 {
        lemma_lex_total(ids[0], ids[0]);
    } else {
        let m = (n - 1) as nat;
        lemma_host_is_smallest(ids, m);
        let f = first_smallest(ids, m);
        let last = ids[n - 1];
        if lex_le(ids[f as int], last) {
            assert(forall|k: int| 0 <= k < n ==> lex_le(ids[f as int], #[trigger] ids[k]));
        } else {
            lemma_lex_total(ids[f as int], last);
            lemma_lex_total(last, last);
            assert forall|k: int| 0 <= k < n implies lex_le(last, #[trigger] ids[k]) by {
                if k < n - 1 {
                    lemma_lex_transitive(last, ids[f as int], ids[k]);
                }
            }
            assert forall|k: int| 0 <= k < n - 1 implies !lex_le(#[trigger] ids[k], last) by {
                if lex_le(ids[k], last) {
                    lemma_lex_transitive(ids[f as int], ids[k], last);
                }
            }
        }
    }
}

} // verus!
