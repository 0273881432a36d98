//! What adding and deleting keys does to the bindings, over any starting
//! state of the bindings root.
use vstd::prelude::*;
use vstd::utf8::encode_utf8;

use crate::binding::{
    apply_ops, files_of, is_file_reference, key_value_of, type_file, write_ops, BindingErrorKind,
    BindingProcessor, OpSpec, ProgressSpec, Store,
};
use crate::confirm::BindingConfirmers;

verus! {

/// Whether the binding `binding` holds the file `file`.
pub open spec fn has_file(store: Store, binding: Seq<char>, file: Seq<char>) -> bool {
    store.contains_key(binding) && store[binding].contains_key(file)
}

/// The key of a parameter `key=value`.
pub open spec fn pair_key(pair: Seq<char>) -> Seq<char> {
    match key_value_of(pair) {
        Some((key, _)) => key,
        None => Seq::empty(),
    }
}

/// The value of a parameter `key=value`.
pub open spec fn pair_value(pair: Seq<char>) -> Seq<char> {
    match key_value_of(pair) {
        Some((_, value)) => value,
        None => Seq::empty(),
    }
}

/// The bytes that a value puts into its key: the value's own bytes, or the
/// bytes of the file that a value `@<path>` names.
pub open spec fn stored_bytes(sources: Map<Seq<char>, Seq<u8>>, value: Seq<char>) -> Seq<u8> {
    if is_file_reference(value) {
        sources[value.drop_first()]
    } else {
        encode_utf8(value)
    }
}

/// Whether the file that a parameter's value `@<path>` names resolves.
pub open spec fn source_resolves(sources: Map<Seq<char>, Seq<u8>>, pair: Seq<char>) -> bool {
    sources.contains_key(pair_value(pair).drop_first())
}

/// A parameter with exactly one `=`, whose value, where it names a file,
/// names one that resolves.
pub open spec fn well_formed(sources: Map<Seq<char>, Seq<u8>>, pair: Seq<char>) -> bool {
    &&& key_value_of(pair) is Some
    &&& is_file_reference(pair_value(pair)) ==> source_resolves(sources, pair)
}

/// What writing one key does: the binding then holds its type marker and the
/// key (the value's bytes, or the bytes of the file it names), and every
/// other file as before.
pub proof fn lemma_apply_write(
    store: Store,
    sources: Map<Seq<char>, Seq<u8>>,
    binding: Seq<char>,
    b_type: Seq<char>,
    key: Seq<char>,
    value: Seq<char>,
)
    requires
        is_file_reference(value) ==> sources.contains_key(value.drop_first()),
    ensures
        apply_ops(store, sources, write_ops(binding, b_type, key, value)) == Some(
            store.insert(
                binding,
                files_of(store, binding).insert(type_file(), encode_utf8(b_type)).insert(
                    key,
                    stored_bytes(sources, value),
                ),
            ),
        ),
{
    let ops = write_ops(binding, b_type, key, value);
    let o1 = ops.drop_last();
    let o2 = o1.drop_last();
    assert(o2.drop_last() =~= Seq::<OpSpec>::empty());
    assert(apply_ops(store, sources, o2.drop_last()) == Some(store));
    assert(o2.last() == OpSpec::CreateBinding(binding));
    let s0 = store.insert(binding, files_of(store, binding));
    assert(apply_ops(store, sources, o2) == Some(s0));
    assert(o1.last() == OpSpec::WriteFile(binding, type_file(), encode_utf8(b_type)));
    let s1 = s0.insert(binding, files_of(s0, binding).insert(type_file(), encode_utf8(b_type)));
    assert(apply_ops(store, sources, ops.drop_last()) == Some(s1));
    assert(files_of(s1, binding) == files_of(store, binding).insert(
        type_file(),
        encode_utf8(b_type),
    ));
    assert(s1.insert(binding, files_of(s1, binding).insert(key, if is_file_reference(value) {
        sources[value.drop_first()]
    } else {
        encode_utf8(value)
    })) =~= store.insert(
        binding,
        files_of(store, binding).insert(type_file(), encode_utf8(b_type)).insert(
            key,
            if is_file_reference(value) {
                sources[value.drop_first()]
            } else {
                encode_utf8(value)
            },
        ),
    ));
}

/// Adding the same `key=value` twice under a policy that always approves
/// succeeds both times; the key then holds the value's bytes (or the bytes
/// of the file that `@<path>` names), and, for a key other than `type`, the
/// type marker holds the type.
pub proof fn lemma_add_twice_keeps_value(
    p: BindingProcessor,
    pair: Seq<char>,
    store: Store,
    sources: Map<Seq<char>, Seq<u8>>,
    reply1: Option<Seq<char>>,
    reply2: Option<Seq<char>>,
)
    requires
        p.confirmer == BindingConfirmers::Always,
        p.binding_type is Some,
        well_formed(sources, pair),
    ensures
        ({
            let (key, value) = (pair_key(pair), pair_value(pair));
            let b = p.add_target();
            let found = source_resolves(sources, pair);
            &&& p.add_outcome(pair, has_file(store, b, key), found, p.confirmer.decides(reply1)) matches Ok(
                ops1)
            &&& apply_ops(store, sources, ops1) matches Some(s1)
            &&& p.add_outcome(pair, has_file(s1, b, key), found, p.confirmer.decides(reply2)) matches Ok(
                ops2)
            &&& apply_ops(s1, sources, ops2) matches Some(s2)
            &&& s2[b][key] == stored_bytes(sources, value)
            &&& s1[b][key] == s2[b][key]
            &&& key != type_file() ==> s2[b][type_file()] == encode_utf8(p.binding_type->0@)
        }),
{
    let (key, value) = (pair_key(pair), pair_value(pair));
    let b = p.add_target();
    let t = p.binding_type->0@;
    lemma_apply_write(store, sources, b, t, key, value);
    let s1 = apply_ops(store, sources, write_ops(b, t, key, value))->0;
    lemma_apply_write(s1, sources, b, t, key, value);
}

/// Under a policy that never approves, a second value for an existing key is
/// refused, and the key keeps the first value.
pub proof fn lemma_never_keeps_first_value(
    p: BindingProcessor,
    pair1: Seq<char>,
    pair2: Seq<char>,
    store: Store,
    sources: Map<Seq<char>, Seq<u8>>,
    reply1: Option<Seq<char>>,
    reply2: Option<Seq<char>>,
)
    requires
        p.confirmer == BindingConfirmers::Never,
        p.binding_type is Some,
        well_formed(sources, pair1),
        key_value_of(pair2) is Some,
        pair_key(pair1) == pair_key(pair2),
        !has_file(store, p.add_target(), pair_key(pair1)),
    ensures
        ({
            let (key, value1) = (pair_key(pair1), pair_value(pair1));
            let b = p.add_target();
            &&& p.add_outcome(
                pair1,
                has_file(store, b, key),
                source_resolves(sources, pair1),
                p.confirmer.decides(reply1),
            ) matches Ok(ops1)
            &&& apply_ops(store, sources, ops1) matches Some(s1)
            &&& p.add_outcome(
                pair2,
                has_file(s1, b, key),
                source_resolves(sources, pair2),
                p.confirmer.decides(reply2),
            ) == Err::<Seq<OpSpec>, BindingErrorKind>(BindingErrorKind::ConfirmationDeclined)
            &&& s1[b][key] == stored_bytes(sources, value1)
        }),
{
    let (key, value) = (pair_key(pair1), pair_value(pair1));
    lemma_apply_write(store, sources, p.add_target(), p.binding_type->0@, key, value);
}

/// Two different keys added to one binding both succeed, whatever the
/// policy, once the first is accepted and the second is new (not there
/// before, not `type`): the second add asks no question. The binding then
/// holds both values, and the type marker written by the first add is left
/// as it was.
pub proof fn lemma_distinct_keys_coexist(
    p: BindingProcessor,
    pair1: Seq<char>,
    pair2: Seq<char>,
    store: Store,
    sources: Map<Seq<char>, Seq<u8>>,
    reply1: Option<Seq<char>>,
    reply2: Option<Seq<char>>,
)
    requires
        p.binding_type is Some,
        well_formed(sources, pair1),
        well_formed(sources, pair2),
        pair_key(pair1) != pair_key(pair2),
        pair_key(pair2) != type_file(),
        !has_file(store, p.add_target(), pair_key(pair2)),
        !has_file(store, p.add_target(), pair_key(pair1)) || p.confirmer.decides(reply1),
    ensures
        ({
            let (key1, value1) = (pair_key(pair1), pair_value(pair1));
            let (key2, value2) = (pair_key(pair2), pair_value(pair2));
            let b = p.add_target();
            let found1 = source_resolves(sources, pair1);
            let found2 = source_resolves(sources, pair2);
            &&& p.add_outcome(pair1, has_file(store, b, key1), found1, p.confirmer.decides(reply1)) matches Ok(
                ops1)
            &&& apply_ops(store, sources, ops1) matches Some(s1)
            &&& p.add_outcome(pair2, has_file(s1, b, key2), found2, p.confirmer.decides(reply2)) matches Ok(
                ops2)
            &&& p.add_outcome(pair2, has_file(s1, b, key2), found2, true) == p.add_outcome(
                pair2,
                has_file(s1, b, key2),
                found2,
                false,
            )
            &&& apply_ops(s1, sources, ops2) matches Some(s2)
            &&& s2[b][key2] == stored_bytes(sources, value2)
            &&& (key1 != type_file() ==> s2[b][key1] == stored_bytes(sources, value1))
            &&& (key1 != type_file() ==> s2[b][type_file()] == encode_utf8(p.binding_type->0@))
            &&& (key1 != type_file() ==> s1[b][type_file()] == s2[b][type_file()])
        }),
{
    let (key1, value1) = (pair_key(pair1), pair_value(pair1));
    let (key2, value2) = (pair_key(pair2), pair_value(pair2));
    let b = p.add_target();
    let t = p.binding_type->0@;
    lemma_apply_write(store, sources, b, t, key1, value1);
    let s1 = apply_ops(store, sources, write_ops(b, t, key1, value1))->0;
    lemma_apply_write(s1, sources, b, t, key2, value2);
}

/// A value `@<path>` whose file resolves puts into the key exactly the bytes
/// of that file (the files outside the bindings are only read), once the
/// gate lets the add through.
pub proof fn lemma_file_reference_copies(
    p: BindingProcessor,
    pair: Seq<char>,
    store: Store,
    sources: Map<Seq<char>, Seq<u8>>,
    reply: Option<Seq<char>>,
)
    requires
        p.binding_type is Some,
        well_formed(sources, pair),
        is_file_reference(pair_value(pair)),
        !has_file(store, p.add_target(), pair_key(pair)) || p.confirmer.decides(reply),
    ensures
        ({
            let (key, value) = (pair_key(pair), pair_value(pair));
            let b = p.add_target();
            &&& p.add_outcome(
                pair,
                has_file(store, b, key),
                source_resolves(sources, pair),
                p.confirmer.decides(reply),
            ) matches Ok(ops)
            &&& apply_ops(store, sources, ops) matches Some(s1)
            &&& s1[b][key] == sources[value.drop_first()]
            &&& (key != type_file() ==> s1[b][type_file()] == encode_utf8(p.binding_type->0@))
        }),
{
    let (key, value) = (pair_key(pair), pair_value(pair));
    lemma_apply_write(store, sources, p.add_target(), p.binding_type->0@, key, value);
}

/// Deleting one key under a policy that always approves removes that key's
/// file and nothing else of the binding; deleting no keys removes the whole
/// binding.
pub proof fn lemma_delete_scoping(
    p: BindingProcessor,
    store: Store,
    sources: Map<Seq<char>, Seq<u8>>,
    key: Seq<char>,
    replies: Seq<Option<Seq<char>>>,
)
    requires
        p.confirmer == BindingConfirmers::Always,
        p.binding_name is Some,
    ensures
        ({
            let b = p.delete_target();
            &&& p.delete_outcome(seq![key], true, seq![has_file(store, b, key)], replies) matches ProgressSpec::Finished(
                ops,
                None,
            )
            &&& apply_ops(store, sources, ops) matches Some(s1)
            &&& !has_file(s1, b, key)
            &&& forall|f: Seq<char>|
                f != key ==> (has_file(s1, b, f) == has_file(store, b, f) && (has_file(store, b, f)
                    ==> #[trigger] s1[b][f] == store[b][f]))
            &&& forall|other: Seq<char>| other != b ==> #[trigger] files_of(s1, other) == files_of(store, other)
        }),
        ({
            let b = p.delete_target();
            &&& p.delete_outcome(Seq::empty(), true, Seq::empty(), replies) matches ProgressSpec::Finished(
                ops,
                None,
            )
            &&& apply_ops(store, sources, ops) matches Some(s1)
            &&& !s1.contains_key(b)
            &&& forall|other: Seq<char>| other != b ==> #[trigger] files_of(s1, other) == files_of(store, other)
        }),
{
    let b = p.delete_target();
    let keys = seq![key];
    let present = seq![has_file(store, b, key)];
    let e = Seq::<Seq<char>>::empty();
    let none = Seq::<OpSpec>::empty();
    assert(!e.contains(key));
    if has_file(store, b, key) {
        let ops = seq![OpSpec::RemoveFile(b, key)];
        assert(none.push(OpSpec::RemoveFile(b, key)) == ops);
        assert(p.delete_from(keys, present, replies, 1, 0, e.push(key), ops) == ProgressSpec::Finished(ops, None));
        assert(ops.drop_last() =~= none);
    } else {
        assert(p.delete_from(keys, present, replies, 1, 0, e, none) == ProgressSpec::Finished(none, None));
    }
    let ops0 = seq![OpSpec::RemoveBinding(b)];
    assert(none.push(OpSpec::RemoveBinding(b)) == ops0);
    assert(ops0.drop_last() =~= none);
}

/// Under a policy that never approves, a deletion that would remove anything
/// (no keys, so the whole binding, or a key whose file is there) is refused
/// before any step: the bindings stay as they were.
pub proof fn lemma_never_deletes(
    p: BindingProcessor,
    keys: Seq<Seq<char>>,
    present: Seq<bool>,
    replies: Seq<Option<Seq<char>>>,
)
    requires
        p.confirmer == BindingConfirmers::Never,
        p.binding_name is Some,
        present.len() == keys.len(),
        keys.len() == 0 || exists|i: int| 0 <= i < present.len() && present[i],
    ensures
        p.delete_outcome(keys, true, present, replies) == ProgressSpec::Finished(
            Seq::<OpSpec>::empty(),
            Some(BindingErrorKind::ConfirmationDeclined),
        ),
{
    if keys.len() > 0 {
        let i = choose|i: int| 0 <= i < present.len() && present[i];
        lemma_never_declines_from(p, keys, present, replies, 0, i);
    }
}

proof fn lemma_never_declines_from(
    p: BindingProcessor,
    keys: Seq<Seq<char>>,
    present: Seq<bool>,
    replies: Seq<Option<Seq<char>>>,
    i: int,
    j: int,
)
    requires
        p.confirmer == BindingConfirmers::Never,
        present.len() == keys.len(),
        0 <= i <= j < present.len(),
        present[j],
    ensures
        p.delete_from(keys, present, replies, i, 0, Seq::empty(), Seq::empty())
            == ProgressSpec::Finished(
            Seq::<OpSpec>::empty(),
            Some(BindingErrorKind::ConfirmationDeclined),
        ),
    decreases j - i,
{
    assert(!Seq::<Seq<char>>::empty().contains(keys[i]));
    if !present[i] {
        lemma_never_declines_from(p, keys, present, replies, i + 1, j);
    }
}

} // verus!
