//! Hash maps and hash sets. On the wire they are sequences: of pairs of key
//! and value, or of elements. A map walks its entries in an order of its
//! own, so what is written is the sequence of the entries in some order.

use crate::cfg::MtCfg;
use crate::codec::{done, MtDeserialize, MtRoundTrip, MtSerialize};
use crate::error::{DeserializeError, ReadFault, SerializeError};
use crate::reader::WrapRead;
use crate::seq::{
    all_fit, lemma_items_fault_at, lemma_seq_round_trip, lemma_wire_items_push, mt_deserialize_seq,
    seq_fault, seq_fits, seq_parse, seq_sound, seq_wire, seq_written, wire_items,
};
use crate::step::{lemma_join_assoc, lemma_prefix_grows};
use std::collections::{HashMap, HashSet};
use std::hash::Hash;
use vstd::prelude::*;
use vstd::std_specs::hash::obeys_key_model;
use vstd::std_specs::iter::IteratorSpec;

verus! {

/// The deep views of a list of values.
pub open spec fn views<T: DeepView>(s: Seq<T>) -> Seq<T::V> {
    Seq::new(s.len(), |i: int| s[i].deep_view())
}

/// The map that holds the pairs of `pairs`: of two with one key, the later
/// stays.
pub open spec fn map_of<K, V>(pairs: Seq<(K, V)>) -> Map<K, V>
    decreases pairs.len(),
{
    if pairs.len() == 0 {
        Map::empty()
    } else {
        map_of(pairs.drop_last()).insert(pairs.last().0, pairs.last().1)
    }
}

/// Reads a map: a sequence of pairs of key and value, put into the map one
/// after another.
pub fn deserialize_map<K: MtDeserialize + Eq + Hash, V: MtDeserialize>(
    cfg: MtCfg,
    reader: &mut WrapRead,
) -> (r: Result<HashMap<K, V>, DeserializeError>)
    ensures
        match r {
            Ok(m) => exists|pairs: Seq<(K, V)>|
                {
                    &&& seq_parse::<(K, V)>(cfg, old(reader)@).res == Ok::<
                        Seq<(K::V, V::V)>,
                        ReadFault,
                    >(#[trigger] views(pairs))
                    &&& obeys_key_model::<K>() ==> m@ == map_of(pairs)
                },
            Err(e) => seq_parse::<(K, V)>(cfg, old(reader)@).res == Err::<
                Seq<(K::V, V::V)>,
                ReadFault,
            >(e@),
        },
        seq_parse::<(K, V)>(cfg, old(reader)@).used <= old(reader)@.len(),
        final(reader)@ == old(reader)@.skip(seq_parse::<(K, V)>(cfg, old(reader)@).used as int),
{
    broadcast use vstd::std_specs::hash::group_hash_axioms;

    let pairs = mt_deserialize_seq::<(K, V)>(cfg, reader)?;
    let ghost listed = pairs@;
    assert(views(listed) == pairs.deep_view());
    let mut map: HashMap<K, V> = HashMap::new();
    assert(listed.take(0) == Seq::<(K, V)>::empty());
    for pair in it: pairs
        invariant
            it.seq() == listed,
            obeys_key_model::<K>() ==> map@ == map_of(listed.take(it.index() as int)),
    {
        assert(listed.take(it.index() + 1).drop_last() == listed.take(it.index() as int));
        map.insert(pair.0, pair.1);
    }
    assert(listed.take(listed.len() as int) == listed);
    Ok(map)
}

/// Whether `order` lists the entries of `m`, each of them once: it holds
/// them all, and as many as there are.
pub open spec fn lists<K, V>(order: Seq<(K, V)>, m: Map<K, V>) -> bool {
    order.len() == m.dom().len() && order.to_set() == m.kv_pairs()
}

/// The map made of pairs that all stand in `m` holds each of their keys, and
/// nothing that `m` does not hold.
proof fn lemma_map_of_within<K, V>(pairs: Seq<(K, V)>, m: Map<K, V>)
    requires
        forall|i: int| 0 <= i < pairs.len() ==> m.contains_pair(#[trigger] pairs[i].0, pairs[i].1),
    ensures
        forall|k: K| #[trigger]
            map_of(pairs).contains_key(k) ==> m.contains_pair(k, map_of(pairs)[k]),
        forall|i: int| 0 <= i < pairs.len() ==> map_of(pairs).contains_key(#[trigger] pairs[i].0),
    decreases pairs.len(),
{
    if pairs.len() > 0 {
        let front = pairs.drop_last();
        assert forall|i: int| 0 <= i < front.len() implies m.contains_pair(
            #[trigger] front[i].0,
            front[i].1,
        ) by {
            assert(front[i] == pairs[i]);
        }
        lemma_map_of_within(front, m);
        let last = pairs.last();
        assert(m.contains_pair(pairs[pairs.len() - 1].0, pairs[pairs.len() - 1].1));
        assert forall|k: K| #[trigger] map_of(pairs).contains_key(k) implies m.contains_pair(
            k,
            map_of(pairs)[k],
        ) by {
            if k != last.0 {
                assert(map_of(front).contains_key(k));
            }
        }
        assert forall|i: int| 0 <= i < pairs.len() implies map_of(pairs).contains_key(
            #[trigger] pairs[i].0,
        ) by {
            if i < front.len() {
                assert(front[i] == pairs[i]);
            }
        }
    }
}

/// A map is the map made of any list of its entries: what `deserialize_map`
/// makes of the pairs that `serialize_map` wrote is the map that was
/// written.
pub proof fn lemma_listed_map<K, V>(order: Seq<(K, V)>, m: Map<K, V>)
    requires
        lists(order, m),
    ensures
        map_of(order) == m,
{
    assert forall|i: int| 0 <= i < order.len() implies m.contains_pair(
        #[trigger] order[i].0,
        order[i].1,
    ) by {
        assert(order.to_set().contains(order[i]));
    }
    lemma_map_of_within(order, m);
    assert forall|k: K| m.contains_key(k) implies map_of(order).contains_key(k) by {
        assert(m.kv_pairs().contains((k, m[k])));
        assert(order.to_set().contains((k, m[k])));
        let i = choose|i: int| 0 <= i < order.len() && order[i] == (k, m[k]);
        assert(order[i].0 == k);
    }
    assert(map_of(order) =~= m);
}

/// A map that was written is read back, whatever the order in which its
/// entries were written: where the bytes of a listing `order` of `m` are
/// read as the pairs `pairs`, the map made of `pairs` is `m`. The views of
/// keys and values must tell them apart.
pub proof fn lemma_map_round_trip<K: MtRoundTrip, V: MtRoundTrip>(
    m: Map<K, V>,
    order: Seq<(K, V)>,
    pairs: Seq<(K, V)>,
    cfg: MtCfg,
    rest: Seq<u8>,
)
    requires
        lists(order, m),
        seq_fits::<(K, V)>(views(order), cfg),
        seq_sound::<(K, V)>(views(order), cfg, rest),
        seq_parse::<(K, V)>(cfg, seq_wire::<(K, V)>(views(order), cfg) + rest).res == Ok::<
            Seq<(K::V, V::V)>,
            ReadFault,
        >(views(pairs)),
        forall|a: (K, V), b: (K, V)| a.deep_view() == b.deep_view() ==> a == b,
    ensures
        seq_parse::<(K, V)>(cfg, seq_wire::<(K, V)>(views(order), cfg) + rest) == done(
            views(order),
            seq_wire::<(K, V)>(views(order), cfg).len(),
        ),
        pairs == order,
        map_of(pairs) == m,
{
    lemma_seq_round_trip::<(K, V)>(views(order), cfg, rest);
    assert(views(pairs) == views(order));
    assert(pairs.len() == views(pairs).len());
    assert(order.len() == views(order).len());
    assert forall|i: int| 0 <= i < pairs.len() implies pairs[i] == order[i] by {
        assert(views(pairs)[i] == pairs[i].deep_view());
        assert(views(order)[i] == order[i].deep_view());
    }
    assert(pairs =~= order);
    lemma_listed_map(order, m);
}

/// A set that was written is read back, whatever the order in which its
/// elements were written: where the bytes of a listing `order` of `s` are
/// read as the elements `items`, the set of `items` is `s`. The views of
/// the elements must tell them apart.
pub proof fn lemma_set_round_trip<T: MtRoundTrip>(
    s: Set<T>,
    order: Seq<T>,
    items: Seq<T>,
    cfg: MtCfg,
    rest: Seq<u8>,
)
    requires
        lists_set(order, s),
        seq_fits::<T>(views(order), cfg),
        seq_sound::<T>(views(order), cfg, rest),
        seq_parse::<T>(cfg, seq_wire::<T>(views(order), cfg) + rest).res == Ok::<
            Seq<T::V>,
            ReadFault,
        >(views(items)),
        forall|a: T, b: T| a.deep_view() == b.deep_view() ==> a == b,
    ensures
        seq_parse::<T>(cfg, seq_wire::<T>(views(order), cfg) + rest) == done(
            views(order),
            seq_wire::<T>(views(order), cfg).len(),
        ),
        items == order,
        items.to_set() == s,
{
    lemma_seq_round_trip::<T>(views(order), cfg, rest);
    assert(views(items) == views(order));
    assert(items.len() == views(items).len());
    assert(order.len() == views(order).len());
    assert forall|i: int| 0 <= i < items.len() implies items[i] == order[i] by {
        assert(views(items)[i] == items[i].deep_view());
        assert(views(order)[i] == order[i].deep_view());
    }
    assert(items =~= order);
}

/// Writes a map: the number of its entries as `cfg` asks for it, then the
/// entries as pairs of key and value under the inner configuration, in the
/// order in which the map hands them out. The keys must be of a kind whose
/// hashing and equality are known to agree.
pub fn serialize_map<K: MtSerialize + Eq + Hash, V: MtSerialize>(
    map: &HashMap<K, V>,
    cfg: MtCfg,
    writer: &mut Vec<u8>,
) -> (r: Result<(), SerializeError>)
    requires
        obeys_key_model::<K>(),
    ensures
        exists|order: Seq<(K, V)>|
            {
                &&& #[trigger] lists(order, map@)
                &&& r is Ok <==> seq_fits::<(K, V)>(views(order), cfg)
                &&& r is Ok ==> final(writer)@ == old(writer)@ + seq_wire::<(K, V)>(
                    views(order),
                    cfg,
                )
                &&& r matches Err(e) ==> e@ == seq_fault::<(K, V)>(views(order), cfg)
                &&& r is Err ==> (old(writer)@ + seq_written::<(K, V)>(
                    views(order),
                    cfg,
                )).is_prefix_of(final(writer)@)
            },
        r is Err ==> old(writer)@.is_prefix_of(final(writer)@),
{
    broadcast use vstd::std_specs::hash::group_hash_axioms;

    proof {
        reveal(seq_fits);
        reveal(seq_wire);
        reveal(seq_fault);
        reveal(seq_written);
    }
    let inner = cfg.inner();
    let second = inner.inner();
    let ghost order = vstd::std_specs::hash::spec_hash_map_iter(map).remaining().unref();
    let ghost listed = views(order);
    assert(lists(order, map@));
    match cfg.write_len(map.len(), writer) {
        Ok(_) => {},
        Err(e) => {
            assert(writer@ + Seq::<u8>::empty() == writer@);
            return Err(e);
        },
    }
    let ghost head = writer@;
    proof {
        assert(listed.take(0) == Seq::<(K::V, V::V)>::empty());
        assert(head + Seq::<u8>::empty() == head);
    }
    for entry in it: map.iter()
        invariant
            obeys_key_model::<K>(),
            inner == cfg.spec_inner(),
            second == cfg.spec_inner().spec_inner(),
            listed == views(order),
            order == it.seq().unref(),
            lists(order, map@),
            cfg.len_fits(order.len()),
            old(writer)@.is_prefix_of(head),
            head == old(writer)@ + cfg.len_wire(map.len() as nat),
            order.len() == map.len(),
            writer@ == head + wire_items::<(K, V)>(
                listed.take(it.index() as int),
                inner,
            ),
            head.is_prefix_of(writer@),
            forall|j: int| 0 <= j < it.index() ==> <(K, V)>::fits(#[trigger] listed[j], inner),
    {
        let ghost i = it.index() as int;
        let ghost before = writer@;
        let (k, v) = entry;
        proof {
            lemma_prefix_grows(old(writer)@, head, before);
        }
        match k.mt_serialize(inner, writer) {
            Ok(_) => {},
            Err(e) => {
                proof {
                    reveal(seq_fits);
                    reveal(seq_fault);
                    reveal(all_fit);
                    reveal(seq_written);
                    lemma_prefix_grows(old(writer)@, before, writer@);
                    assert(listed[i] == (k.deep_view(), v.deep_view()));
                    lemma_items_fault_at::<(K, V)>(listed, inner, i);
                    lemma_join_assoc(
                        old(writer)@,
                        cfg.len_wire(order.len()),
                        wire_items::<(K, V)>(listed.take(i), inner),
                    );
                }
                return Err(e);
            },
        }
        let ghost mid = writer@;
        match v.mt_serialize(second, writer) {
            Ok(_) => {},
            Err(e) => {
                proof {
                    reveal(seq_fits);
                    reveal(seq_fault);
                    reveal(all_fit);
                    reveal(seq_written);
                    lemma_prefix_grows(before, mid, writer@);
                    lemma_prefix_grows(old(writer)@, before, writer@);
                    assert(listed[i] == (k.deep_view(), v.deep_view()));
                    lemma_items_fault_at::<(K, V)>(listed, inner, i);
                    lemma_join_assoc(
                        old(writer)@,
                        cfg.len_wire(order.len()),
                        wire_items::<(K, V)>(listed.take(i), inner),
                    );
                }
                return Err(e);
            },
        }
        proof {
            let kw = K::wire(k.deep_view(), inner);
            let vw = V::wire(v.deep_view(), second);
            lemma_join_assoc(before, kw, vw);
            lemma_prefix_grows(head, before, writer@);
            assert(listed[i] == (k.deep_view(), v.deep_view()));
            lemma_wire_items_push::<(K, V)>(listed.take(i), listed[i], inner);
            assert(listed.take(i + 1) == listed.take(i).push(listed[i]));
            lemma_join_assoc(head, wire_items::<(K, V)>(listed.take(i), inner), kw + vw);
        }
    }
    proof {
        reveal(seq_fits);
        reveal(all_fit);
        assert(listed.take(listed.len() as int) == listed);
    }
    Ok(())
}

/// Reads a set: a sequence of elements, put into the set one after another.
pub fn deserialize_set<T: MtDeserialize + Eq + Hash>(cfg: MtCfg, reader: &mut WrapRead) -> (r:
    Result<HashSet<T>, DeserializeError>)
    ensures
        match r {
            Ok(m) => exists|items: Seq<T>|
                {
                    &&& seq_parse::<T>(cfg, old(reader)@).res == Ok::<Seq<T::V>, ReadFault>(
                        #[trigger] views(items),
                    )
                    &&& obeys_key_model::<T>() ==> m@ == items.to_set()
                },
            Err(e) => seq_parse::<T>(cfg, old(reader)@).res == Err::<Seq<T::V>, ReadFault>(e@),
        },
        seq_parse::<T>(cfg, old(reader)@).used <= old(reader)@.len(),
        final(reader)@ == old(reader)@.skip(seq_parse::<T>(cfg, old(reader)@).used as int),
{
    broadcast use vstd::std_specs::hash::group_hash_axioms;

    let items = mt_deserialize_seq::<T>(cfg, reader)?;
    let ghost listed = items@;
    assert(views(listed) == items.deep_view());
    let mut set: HashSet<T> = HashSet::new();
    assert(listed.take(0).to_set() == Set::<T>::empty());
    for item in it: items
        invariant
            it.seq() == listed,
            obeys_key_model::<T>() ==> set@ == listed.take(it.index() as int).to_set(),
    {
        proof {
            let i = it.index() as int;
            assert(listed.take(i + 1) == listed.take(i).push(listed[i]));
            assert(listed.take(i).push(listed[i]).to_set() == listed.take(i).to_set().insert(
                listed[i],
            )) by {
                let front = listed.take(i);
                assert forall|x: T|
                    front.push(listed[i]).to_set().contains(x) == front.to_set().insert(
                        listed[i],
                    ).contains(x) by {
                    if front.contains(x) {
                        let j = choose|j: int| 0 <= j < front.len() && front[j] == x;
                        assert(front.push(listed[i])[j] == x);
                    }
                    if x == listed[i] {
                        assert(front.push(listed[i])[i] == x);
                    }
                }
            }
        }
        set.insert(item);
    }
    assert(listed.take(listed.len() as int) == listed);
    Ok(set)
}

/// Whether `order` lists the elements of `s`, each of them once: it holds
/// them all, and as many as there are.
pub open spec fn lists_set<T>(order: Seq<T>, s: Set<T>) -> bool {
    order.len() == s.len() && order.to_set() == s
}

/// Writes a set: the number of its elements as `cfg` asks for it, then the
/// elements under the inner configuration, in the order in which the set
/// hands them out. The elements must be of a kind whose hashing and equality
/// are known to agree.
pub fn serialize_set<T: MtSerialize + Eq + Hash>(
    set: &HashSet<T>,
    cfg: MtCfg,
    writer: &mut Vec<u8>,
) -> (r: Result<(), SerializeError>)
    requires
        obeys_key_model::<T>(),
    ensures
        exists|order: Seq<T>|
            {
                &&& #[trigger] lists_set(order, set@)
                &&& r is Ok <==> seq_fits::<T>(views(order), cfg)
                &&& r is Ok ==> final(writer)@ == old(writer)@ + seq_wire::<T>(views(order), cfg)
                &&& r matches Err(e) ==> e@ == seq_fault::<T>(views(order), cfg)
                &&& r is Err ==> (old(writer)@ + seq_written::<T>(views(order), cfg)).is_prefix_of(
                    final(writer)@,
                )
            },
        r is Err ==> old(writer)@.is_prefix_of(final(writer)@),
{
    broadcast use vstd::std_specs::hash::group_hash_axioms;

    proof {
        reveal(seq_fits);
        reveal(seq_wire);
        reveal(seq_fault);
        reveal(seq_written);
    }
    let inner = cfg.inner();
    let ghost order = vstd::std_specs::hash::spec_hash_keys_iter(set).remaining().unref();
    let ghost listed = views(order);
    assert(lists_set(order, set@));
    match cfg.write_len(set.len(), writer) {
        Ok(_) => {},
        Err(e) => {
            assert(writer@ + Seq::<u8>::empty() == writer@);
            return Err(e);
        },
    }
    let ghost head = writer@;
    proof {
        assert(listed.take(0) == Seq::<T::V>::empty());
        assert(head + Seq::<u8>::empty() == head);
    }
    for item in it: set.iter()
        invariant
            obeys_key_model::<T>(),
            inner == cfg.spec_inner(),
            listed == views(order),
            order == it.seq().unref(),
            lists_set(order, set@),
            cfg.len_fits(order.len()),
            old(writer)@.is_prefix_of(head),
            head == old(writer)@ + cfg.len_wire(set.len() as nat),
            order.len() == set.len(),
            writer@ == head + wire_items::<T>(listed.take(it.index() as int), inner),
            head.is_prefix_of(writer@),
            forall|j: int| 0 <= j < it.index() ==> T::fits(#[trigger] listed[j], inner),
    {
        let ghost i = it.index() as int;
        let ghost before = writer@;
        proof {
            lemma_prefix_grows(old(writer)@, head, before);
        }
        match item.mt_serialize(inner, writer) {
            Ok(_) => {},
            Err(e) => {
                proof {
                    reveal(seq_fits);
                    reveal(seq_fault);
                    reveal(all_fit);
                    reveal(seq_written);
                    lemma_prefix_grows(old(writer)@, before, writer@);
                    assert(listed[i] == item.deep_view());
                    lemma_items_fault_at::<T>(listed, inner, i);
                    lemma_join_assoc(
                        old(writer)@,
                        cfg.len_wire(order.len()),
                        wire_items::<T>(listed.take(i), inner),
                    );
                }
                return Err(e);
            },
        }
        proof {
            lemma_prefix_grows(head, before, writer@);
            assert(listed[i] == item.deep_view());
            lemma_wire_items_push::<T>(listed.take(i), listed[i], inner);
            assert(listed.take(i + 1) == listed.take(i).push(listed[i]));
            lemma_join_assoc(
                head,
                wire_items::<T>(listed.take(i), inner),
                T::wire(listed[i], inner),
            );
        }
    }
    proof {
        reveal(seq_fits);
        reveal(all_fit);
        assert(listed.take(listed.len() as int) == listed);
    }
    Ok(())
}

} // verus!
