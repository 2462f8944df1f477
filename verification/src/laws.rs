//! Laws relating the document mutations: statements that hold of every
//! document, proved once and for all.

use vstd::prelude::*;

use crate::document::{
    ConfigView, doc_commands, has_matching, new_command, remove_matching, spec_pop_command,
    spec_push_command,
};
use crate::store::{normalize_doc, with_leading_slash};
use crate::text::{lemma_normalized_idempotent, normalized};

verus! {

/// Removing a key no record matches changes nothing.
proof fn lemma_remove_matching_absent(cs: Seq<crate::document::CommandView>, key: Seq<char>)
    requires
        forall|i: int| 0 <= i < cs.len() ==> normalized(#[trigger] cs[i].name) != key,
    ensures
        remove_matching(cs, key) == cs,
    decreases cs.len(),
{
    if cs.len() > 0 {
        lemma_remove_matching_absent(cs.drop_last(), key);
        assert(remove_matching(cs, key) =~= cs.drop_last() + seq![cs.last()]);
        assert(cs.drop_last() + seq![cs.last()] =~= cs);
    }
}

/// Adding a command under a trigger not yet present and then removing that
/// trigger returns the document to its original command list — and therefore
/// the store it normalizes to is the original one.
pub proof fn lemma_add_remove_round_trip(d: ConfigView, name: Seq<char>, target: Seq<char>)
    requires
        !has_matching(doc_commands(d), name),
    ensures
        spec_pop_command(spec_push_command(d, name, target), name) == (ConfigView {
            commands: Some(doc_commands(d)),
            ..d
        }),
        normalize_doc(spec_pop_command(spec_push_command(d, name, target), name))
            == normalize_doc(d),
{
    let cs = doc_commands(d);
    let key = normalized(name);
    let added = new_command(name, target);
    let pushed = cs.push(added);
    assert forall|i: int| 0 <= i < cs.len() implies normalized(#[trigger] cs[i].name) != key by {
        assert(!(normalized(cs[i].name) == normalized(name)));
    }
    assert(pushed.drop_last() =~= cs);
    lemma_normalized_idempotent(name);
    assert(normalized(added.name) == key);
    assert(remove_matching(pushed, key) == remove_matching(cs, key));
    lemma_remove_matching_absent(cs, key);
}

/// Prefixing a path with a slash is idempotent: a path that already starts
/// with `/` is left as it is.
pub proof fn lemma_leading_slash_idempotent(p: Seq<char>)
    ensures
        with_leading_slash(with_leading_slash(p)) == with_leading_slash(p),
{
    assert(with_leading_slash(p)[0] == '/');
}

} // verus!
