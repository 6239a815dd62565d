//! The seats: one for each guest, with the store that keeps them.
use vstd::prelude::*;

use crate::names::{collect, collected, NameMap};
use crate::text::{comes_before, lemma_precedes_total, lemma_precedes_transitive, precedes};

verus! {

/// One guest's place in the broadcast. The id is the whole identity: it is the
/// weave node id the page registers as, the weave stream name, and, through
/// open-live's provider, the source document id. One seat, one stream, one
/// source, stable across a guest rejoining.
#[derive(Debug)]
pub struct Seat {
    pub seat: String,
    pub display_name: String,
    pub token: String,
    pub created_at: i64,
    pub expires_at: i64,
    /// Revoked seats stay until their stream is confirmed gone, so a failed
    /// delete is retried rather than leaking a stream nobody owns.
    pub revoked: bool,
    /// Set the first time the node was seen registered. It is what separates a
    /// guest who never showed up from one who has left.
    pub joined_at: Option<i64>,
}

/// A seat as mathematics.
pub struct SeatModel {
    pub seat: Seq<char>,
    pub display_name: Seq<char>,
    pub token: Seq<char>,
    pub created_at: i64,
    pub expires_at: i64,
    pub revoked: bool,
    pub joined_at: Option<i64>,
}

impl SeatModel {
    pub open spec fn expired(self, now: i64) -> bool {
        now >= self.expires_at
    }
}

impl View for Seat {
    type V = SeatModel;

    open spec fn view(&self) -> SeatModel {
        SeatModel {
            seat: self.seat@,
            display_name: self.display_name@,
            token: self.token@,
            created_at: self.created_at,
            expires_at: self.expires_at,
            revoked: self.revoked,
            joined_at: self.joined_at,
        }
    }
}

impl Clone for Seat {
    fn clone(&self) -> (r: Self)
        ensures
            r == *self,
    {
        Seat {
            seat: self.seat.clone(),
            display_name: self.display_name.clone(),
            token: self.token.clone(),
            created_at: self.created_at,
            expires_at: self.expires_at,
            revoked: self.revoked,
            joined_at: self.joined_at,
        }
    }
}

impl Seat {
    pub fn expired(&self, now: i64) -> (r: bool)
        ensures
            r == self@.expired(now),
    {
        now >= self.expires_at
    }
}

/// The seats of a list as mathematics.
pub open spec fn models(seats: Seq<Seat>) -> Seq<SeatModel> {
    seats.map_values(|seat: Seat| seat@)
}

/// Newest first; seats of the same age by their key.
pub open spec fn goes_before(
    seats: Map<Seq<char>, SeatModel>,
    a: Seq<char>,
    b: Seq<char>,
) -> bool {
    ||| seats[a].created_at > seats[b].created_at
    ||| seats[a].created_at == seats[b].created_at && precedes(a, b)
}

/// The keys of the seats, each once, in list order.
pub open spec fn in_list_order(seats: Map<Seq<char>, SeatModel>, keys: Seq<Seq<char>>) -> bool {
    &&& keys.no_duplicates()
    &&& forall|key: Seq<char>| #[trigger] seats.contains_key(key) <==> keys.contains(key)
    &&& forall|i: int, j: int|
        0 <= i < j < keys.len() ==> goes_before(seats, #[trigger] keys[i], #[trigger] keys[j])
}

/// The keys in list order; there is one such sequence.
pub open spec fn list_keys(seats: Map<Seq<char>, SeatModel>) -> Seq<Seq<char>> {
    choose|keys: Seq<Seq<char>>| in_list_order(seats, keys)
}

/// The seats in list order.
pub open spec fn listing(seats: Map<Seq<char>, SeatModel>) -> Seq<SeatModel> {
    list_keys(seats).map_values(|key: Seq<char>| seats[key])
}

/// Seats have one list order.
pub proof fn law_list_order_is_unique(
    seats: Map<Seq<char>, SeatModel>,
    a: Seq<Seq<char>>,
    b: Seq<Seq<char>>,
)
    requires
        in_list_order(seats, a),
        in_list_order(seats, b),
    ensures
        a == b,
    decreases a.len(),
{
    if a.len() == 0 {
        if b.len() > 0 {
            assert(b.contains(b[0]));
            assert(seats.contains_key(b[0]));
            assert(a.contains(b[0]));
        }
        assert(a =~= b);
    } else {
        assert(a.contains(a[0]));
        assert(seats.contains_key(a[0]));
        assert(b.contains(a[0]));
        let j = b.index_of(a[0]);
        assert(b.contains(b[0]));
        assert(seats.contains_key(b[0]));
        assert(a.contains(b[0]));
        let i = a.index_of(b[0]);
        if j > 0 {
            assert(goes_before(seats, b[0], b[j]));
            if i > 0 {
                assert(goes_before(seats, a[0], a[i]));
            }
            lemma_precedes_total(a[0], b[0]);
            assert(false);
        }
        let head = a[0];
        let rest = seats.remove(head);
        let x = a.drop_first();
        let y = b.drop_first();
        assert(in_list_order(rest, x)) by {
            lemma_drop_head(seats, a);
        }
        assert(in_list_order(rest, y)) by {
            lemma_drop_head(seats, b);
        }
        law_list_order_is_unique(rest, x, y);
        assert(a =~= seq![head] + x);
        assert(b =~= seq![head] + y);
    }
}

proof fn lemma_drop_head(seats: Map<Seq<char>, SeatModel>, keys: Seq<Seq<char>>)
    requires
        in_list_order(seats, keys),
        keys.len() > 0,
    ensures
        in_list_order(seats.remove(keys[0]), keys.drop_first()),
{
    let head = keys[0];
    let rest = seats.remove(head);
    let tail = keys.drop_first();
    assert forall|key: Seq<char>| #[trigger] rest.contains_key(key) <==> tail.contains(key) by {
        if rest.contains_key(key) {
            assert(seats.contains_key(key));
            let i = keys.index_of(key);
            assert(tail[i - 1] == key);
        }
        if tail.contains(key) {
            let i = tail.index_of(key);
            assert(keys[i + 1] == key);
            assert(keys.contains(key));
            assert(seats.contains_key(key));
            assert(key != head);
        }
    }
    assert forall|i: int, j: int| 0 <= i < j < tail.len() implies goes_before(
        rest,
        #[trigger] tail[i],
        #[trigger] tail[j],
    ) by {
        assert(tail[i] == keys[i + 1]);
        assert(tail[j] == keys[j + 1]);
        assert(keys[i + 1] != head);
        assert(keys[j + 1] != head);
        assert(goes_before(seats, keys[i + 1], keys[j + 1]));
    }
}

/// Where a key belongs among keys in list order.
proof fn find_place(
    seats: Map<Seq<char>, SeatModel>,
    keys: Seq<Seq<char>>,
    key: Seq<char>,
) -> (p: int)
    requires
        !keys.contains(key),
        forall|i: int, j: int|
            0 <= i < j < keys.len() ==> goes_before(seats, #[trigger] keys[i], #[trigger] keys[j]),
    ensures
        0 <= p <= keys.len(),
        forall|i: int| 0 <= i < p ==> goes_before(seats, #[trigger] keys[i], key),
        forall|i: int| p <= i < keys.len() ==> goes_before(seats, key, #[trigger] keys[i]),
    decreases keys.len(),
{
    if keys.len() == 0 {
        0
    } else {
        let last = keys.last();
        assert(keys.contains(last));
        lemma_precedes_total(last, key);
        if goes_before(seats, last, key) {
            assert forall|i: int| 0 <= i < keys.len() implies goes_before(
                seats,
                #[trigger] keys[i],
                key,
            ) by {
                if i < keys.len() - 1 {
                    assert(goes_before(seats, keys[i], keys[keys.len() - 1]));
                    if precedes(keys[i], last) && precedes(last, key) {
                        lemma_precedes_transitive(keys[i], last, key);
                    }
                }
            }
            keys.len() as int
        } else {
            let earlier = keys.drop_last();
            assert(!earlier.contains(key)) by {
                if earlier.contains(key) {
                    assert(keys[earlier.index_of(key)] == key);
                }
            }
            let p = find_place(seats, earlier, key);
            assert forall|i: int| 0 <= i < p implies goes_before(seats, #[trigger] keys[i], key) by {
                assert(keys[i] == earlier[i]);
            }
            assert forall|i: int| p <= i < keys.len() implies goes_before(
                seats,
                key,
                #[trigger] keys[i],
            ) by {
                if i < earlier.len() {
                    assert(keys[i] == earlier[i]);
                }
            }
            p
        }
    }
}

/// Any store's seats have a list order.
pub proof fn lemma_list_order_exists(seats: Map<Seq<char>, SeatModel>)
    requires
        seats.dom().finite(),
    ensures
        in_list_order(seats, list_keys(seats)),
    decreases seats.dom().len(),
{
    if seats.dom().len() == 0 {
        let keys = Seq::<Seq<char>>::empty();
        assert(in_list_order(seats, keys)) by {
            assert forall|key: Seq<char>| #[trigger] seats.contains_key(key) <==> keys.contains(
                key,
            ) by {
                assert(seats.dom() =~= Set::empty());
            }
        }
    } else {
        let key = seats.dom().choose();
        let rest = seats.remove(key);
        assert(rest.dom() =~= seats.dom().remove(key));
        lemma_list_order_exists(rest);
        let keys = list_keys(rest);
        assert(!keys.contains(key)) by {
            assert(!rest.contains_key(key));
        }
        assert forall|i: int, j: int| 0 <= i < j < keys.len() implies goes_before(
            seats,
            #[trigger] keys[i],
            #[trigger] keys[j],
        ) by {
            assert(goes_before(rest, keys[i], keys[j]));
            assert(keys.contains(keys[i]));
            assert(keys.contains(keys[j]));
        }
        let p = find_place(seats, keys, key);
        let all = keys.insert(p, key);
        assert(all.len() == keys.len() + 1);
        assert forall|i: int| 0 <= i < all.len() implies #[trigger] all[i] == (if i < p {
            keys[i]
        } else if i == p {
            key
        } else {
            keys[i - 1]
        }) by {}
        assert(in_list_order(seats, all)) by {
            assert forall|k: Seq<char>| #[trigger] seats.contains_key(k) <==> all.contains(k) by {
                if k == key {
                    assert(all[p] == key);
                } else {
                    assert(rest.contains_key(k) <==> seats.contains_key(k));
                    if keys.contains(k) {
                        let i = keys.index_of(k);
                        if i < p {
                            assert(all[i] == k);
                        } else {
                            assert(all[i + 1] == k);
                        }
                    }
                    if all.contains(k) {
                        let i = all.index_of(k);
                        if i < p {
                            assert(keys[i] == k);
                        } else {
                            assert(keys[i - 1] == k);
                        }
                    }
                }
            }
            assert forall|i: int, j: int| 0 <= i < j < all.len() implies goes_before(
                seats,
                #[trigger] all[i],
                #[trigger] all[j],
            ) by {
                let a = if i < p { i } else { i - 1 };
                let b = if j < p { j } else { j - 1 };
                if i != p && j != p {
                    assert(all[i] == keys[a]);
                    assert(all[j] == keys[b]);
                    assert(goes_before(seats, keys[a], keys[b]));
                } else if i == p {
                    assert(all[j] == keys[b]);
                } else {
                    assert(all[i] == keys[a]);
                }
            }
            assert forall|i: int, j: int|
                0 <= i < all.len() && 0 <= j < all.len() && i != j implies all[i] != all[j] by {
                if i < j {
                    lemma_precedes_total(all[i], all[j]);
                } else {
                    lemma_precedes_total(all[j], all[i]);
                }
            }
        }
    }
}

/// The list holds each seat of the store once, and nothing else.
pub proof fn law_list_holds_every_seat(seats: Map<Seq<char>, SeatModel>)
    requires
        seats.dom().finite(),
    ensures
        listing(seats).len() == list_keys(seats).len(),
        list_keys(seats).no_duplicates(),
        forall|key: Seq<char>| #[trigger] seats.contains_key(key) <==> list_keys(seats).contains(key),
        forall|i: int|
            0 <= i < list_keys(seats).len() ==> #[trigger] listing(seats)[i]
                == seats[list_keys(seats)[i]],
{
    lemma_list_order_exists(seats);
}

/// The list runs from the newest seat to the oldest.
pub proof fn law_list_is_newest_first(seats: Map<Seq<char>, SeatModel>)
    requires
        seats.dom().finite(),
    ensures
        forall|i: int, j: int|
            0 <= i < j < listing(seats).len() ==> (#[trigger] listing(seats)[i]).created_at >= (
            #[trigger] listing(seats)[j]).created_at,
{
    lemma_list_order_exists(seats);
    let keys = list_keys(seats);
    assert forall|i: int, j: int| 0 <= i < j < listing(seats).len() implies (
    #[trigger] listing(seats)[i]).created_at >= (#[trigger] listing(seats)[j]).created_at by {
        assert(goes_before(seats, keys[i], keys[j]));
    }
}

/// Each seat is kept under its id.
pub open spec fn by_own_id(seats: Map<Seq<char>, SeatModel>) -> bool {
    forall|key: Seq<char>| #[trigger] seats.contains_key(key) ==> seats[key].seat == key
}

/// The seats by their ids.
#[derive(Debug)]
pub struct SeatStore {
    seats: NameMap<Seat>,
}

impl View for SeatStore {
    type V = Map<Seq<char>, SeatModel>;

    closed spec fn view(&self) -> Map<Seq<char>, SeatModel> {
        self.seats@.map_values(|seat: Seat| seat@)
    }
}

impl SeatStore {
    /// The store that the saved entries make.
    pub fn load(entries: Vec<(String, Seat)>) -> (r: Self)
        ensures
            r@ == collected(entries@).map_values(|seat: Seat| seat@),
    {
        SeatStore { seats: collect(entries) }
    }

    pub fn get(&self, seat: &str) -> (r: Option<&Seat>)
        ensures
            match r {
                Some(found) => self@.contains_key(seat@) && found@ == self@[seat@],
                None => !self@.contains_key(seat@),
            },
    {
        self.seats.get(seat)
    }

    fn earlier(&self, a: usize, b: usize) -> (r: bool)
        requires
            a < self.seats.names().len(),
            b < self.seats.names().len(),
        ensures
            r == goes_before(self@, self.seats.names()[a as int], self.seats.names()[b as int]),
    {
        let (x_key, x) = self.seats.at(a);
        let (y_key, y) = self.seats.at(b);
        x.created_at > y.created_at || (x.created_at == y.created_at && comes_before(
            x_key.as_str(),
            y_key.as_str(),
        ))
    }

    /// Newest first, which is the order the operator page renders.
    pub fn list(&self) -> (r: Vec<Seat>)
        ensures
            models(r@) == listing(self@),
            self@.dom().finite(),
    {
        let n = self.seats.len();
        let ghost names = self.seats.names();
        let ghost store = self@;
        let mut order: Vec<usize> = Vec::new();
        for i in 0..n
            invariant
                n == names.len(),
                names == self.seats.names(),
                store == self@,
                names.no_duplicates(),
                order@.len() == i,
                forall|k: int| 0 <= k < i ==> #[trigger] order@[k] < i,
                forall|x: usize| x < i ==> #[trigger] order@.contains(x),
                forall|a: int, b: int|
                    0 <= a < b < i ==> goes_before(
                        store,
                        names[#[trigger] order@[a] as int],
                        names[#[trigger] order@[b] as int],
                    ),
        {
            let mut p: usize = 0;
            while p < i && self.earlier(order[p], i)
                invariant
                    p <= i < n,
                    n == names.len(),
                    names == self.seats.names(),
                    store == self@,
                    order@.len() == i,
                    forall|k: int| 0 <= k < i ==> #[trigger] order@[k] < i,
                    forall|k: int|
                        0 <= k < p ==> goes_before(
                            store,
                            names[#[trigger] order@[k] as int],
                            names[i as int],
                        ),
                decreases i - p,
            {
                p = p + 1;
            }
            let ghost before = order@;
            order.insert(p, i);
            proof {
                let after = order@;
                assert(after == before.insert(p as int, i));
                let here = names[i as int];
                assert forall|k: int| p <= k < i implies goes_before(
                    store,
                    here,
                    names[#[trigger] before[k] as int],
                ) by {
                    let first = names[before[p as int] as int];
                    let other = names[before[k] as int];
                    assert(first != here);
                    lemma_precedes_total(first, here);
                    assert(goes_before(store, here, first));
                    if k > p {
                        assert(goes_before(store, first, other));
                        if precedes(here, first) && precedes(first, other) {
                            lemma_precedes_transitive(here, first, other);
                        }
                    }
                }
                assert forall|a: int, b: int| 0 <= a < b < i + 1 implies goes_before(
                    store,
                    names[#[trigger] after[a] as int],
                    names[#[trigger] after[b] as int],
                ) by {
                    let a0 = if a < p {
                        a
                    } else {
                        a - 1
                    };
                    let b0 = if b < p {
                        b
                    } else {
                        b - 1
                    };
                    if a != p {
                        assert(after[a] == before[a0]);
                    }
                    if b != p {
                        assert(after[b] == before[b0]);
                    }
                }
                assert forall|x: usize| x < i + 1 implies #[trigger] after.contains(x) by {
                    if x == i {
                        assert(after[p as int] == i);
                    } else {
                        assert(before.contains(x));
                        let k = before.index_of(x);
                        if k < p {
                            assert(after[k] == x);
                        } else {
                            assert(after[k + 1] == x);
                        }
                    }
                }
                assert forall|k: int| 0 <= k < i + 1 implies #[trigger] after[k] < i + 1 by {
                    if k < p {
                        assert(after[k] == before[k]);
                    } else if k > p {
                        assert(after[k] == before[k - 1]);
                    }
                }
            }
        }
        let ghost keys = order@.map_values(|x: usize| names[x as int]);
        proof {
            assert(in_list_order(store, keys)) by {
                assert forall|key: Seq<char>| #[trigger] store.contains_key(key) <==> keys.contains(
                    key,
                ) by {
                    if self.seats@.contains_key(key) {
                        let x = names.index_of(key);
                        assert(order@.contains(x as usize));
                        let k = order@.index_of(x as usize);
                        assert(keys[k] == key);
                    }
                    if keys.contains(key) {
                        let k = keys.index_of(key);
                        assert(names.contains(names[order@[k] as int]));
                        assert(self.seats@.contains_key(key));
                    }
                }
                assert forall|i: int, j: int| 0 <= i < j < keys.len() implies goes_before(
                    store,
                    #[trigger] keys[i],
                    #[trigger] keys[j],
                ) by {
                    assert(goes_before(store, names[order@[i] as int], names[order@[j] as int]));
                }
                assert forall|i: int, j: int|
                    0 <= i < keys.len() && 0 <= j < keys.len() && i != j implies keys[i]
                    != keys[j] by {
                    if i < j {
                        lemma_precedes_total(keys[i], keys[j]);
                    } else {
                        lemma_precedes_total(keys[j], keys[i]);
                    }
                }
            }
            law_list_order_is_unique(store, keys, list_keys(store));
            vstd::seq_lib::seq_to_set_is_finite(keys);
            assert(store.dom() =~= keys.to_set()) by {
                assert forall|key: Seq<char>| #[trigger] store.dom().contains(key) <==> keys.to_set(
                ).contains(key) by {
                    assert(store.contains_key(key) <==> keys.contains(key));
                }
            }
        }
        let mut seats: Vec<Seat> = Vec::new();
        for i in 0..order.len()
            invariant
                order@.len() == n,
                n == names.len(),
                names == self.seats.names(),
                store == self@,
                forall|k: int| 0 <= k < n ==> #[trigger] order@[k] < n,
                keys == order@.map_values(|x: usize| names[x as int]),
                store.dom().finite(),
                models(seats@) == keys.take(i as int).map_values(|key: Seq<char>| store[key]),
        {
            let (_, seat) = self.seats.at(order[i]);
            let ghost before = seats@;
            seats.push(seat.clone());
            proof {
                assert(models(seats@) =~= models(before).push(seat@));
                assert(keys.take(i + 1) =~= keys.take(i as int).push(keys[i as int]));
                assert(seat@ == store[keys[i as int]]);
                assert(keys.take(i + 1).map_values(|key: Seq<char>| store[key]) =~= keys.take(
                    i as int,
                ).map_values(|key: Seq<char>| store[key]).push(store[keys[i as int]]));
            }
        }
        assert(models(seats@) =~= listing(store));
        seats
    }

    /// Puts a seat under its id. The store is to be saved afterwards.
    pub fn insert(&mut self, seat: Seat)
        ensures
            final(self)@ == old(self)@.insert(seat@.seat, seat@),
    {
        self.seats.insert(seat.seat.clone(), seat);
        assert(self@ =~= old(self)@.insert(seat@.seat, seat@));
    }

    /// Takes a seat out. The store is to be saved afterwards where there was one.
    pub fn remove(&mut self, seat: &str) -> (r: Option<Seat>)
        ensures
            final(self)@ == old(self)@.remove(seat@),
            match r {
                Some(removed) => old(self)@.contains_key(seat@) && removed@ == old(self)@[seat@],
                None => !old(self)@.contains_key(seat@),
            },
    {
        let removed = self.seats.remove(seat);
        assert(self@ =~= old(self)@.remove(seat@));
        removed
    }

    /// Applies a change and tells whether something changed. The store is to be
    /// saved only then, so the tick does not rewrite the file every few seconds.
    pub fn update<F: FnOnce(&mut Seat) -> bool>(&mut self, seat: &str, edit: F) -> (r: bool)
        requires
            old(self)@.contains_key(seat@) ==> forall|m: &mut Seat|
                (*m)@ == old(self)@[seat@] ==> #[trigger] call_requires(edit, (m,)),
        ensures
            !old(self)@.contains_key(seat@) ==> !r && final(self)@ == old(self)@,
            old(self)@.contains_key(seat@) ==> exists|m: &mut Seat|
                (*m)@ == old(self)@[seat@] && final(self)@ == old(self)@.insert(
                    seat@,
                    (*final(m))@,
                ) && #[trigger] call_ensures(edit, (m,), r),
    {
        match self.seats.remove(seat) {
            Some(mut found) => {
                let changed = edit(&mut found);
                self.seats.insert(seat.to_owned(), found);
                assert(self@ =~= old(self)@.insert(seat@, found@));
                changed
            },
            None => {
                assert(self@ =~= old(self)@);
                false
            },
        }
    }

    /// The entries to save, each key once.
    pub fn entries(&self) -> (r: Vec<(String, Seat)>)
        ensures
            collected(r@).map_values(|seat: Seat| seat@) == self@,
            forall|i: int, j: int|
                0 <= i < j < r@.len() ==> (#[trigger] r@[i]).0@ != (#[trigger] r@[j]).0@,
    {
        let n = self.seats.len();
        let ghost names = self.seats.names();
        let mut out: Vec<(String, Seat)> = Vec::new();
        for i in 0..n
            invariant
                n == names.len(),
                names == self.seats.names(),
                names.no_duplicates(),
                out@.len() == i,
                forall|k: int| 0 <= k < i ==> (#[trigger] out@[k]).0@ == names[k],
                forall|key: Seq<char>| #[trigger]
                    collected(out@).contains_key(key) <==> names.take(i as int).contains(key),
                forall|key: Seq<char>| #[trigger]
                    collected(out@).contains_key(key) ==> self.seats@.contains_key(key)
                        && collected(out@)[key] == self.seats@[key],
        {
            let (key, seat) = self.seats.at(i);
            let ghost before = out@;
            out.push((key.clone(), seat.clone()));
            proof {
                assert(out@.drop_last() =~= before);
                assert(collected(out@) == collected(before).insert(key@, *seat));
                assert(names.take(i + 1) =~= names.take(i as int).push(names[i as int]));
                assert forall|key: Seq<char>| #[trigger]
                    collected(out@).contains_key(key) <==> names.take(i + 1).contains(key) by {
                    let earlier = names.take(i as int);
                    let later = names.take(i + 1);
                    if earlier.contains(key) {
                        assert(later[earlier.index_of(key)] == key);
                    }
                    assert(later[i as int] == names[i as int]);
                    if later.contains(key) && key != names[i as int] {
                        assert(earlier[later.index_of(key)] == key);
                    }
                }
            }
        }
        assert(names.take(n as int) =~= names);
        assert(collected(out@).map_values(|seat: Seat| seat@) =~= self@);
        out
    }
}

} // verus!
