//! Ambient lemmas tying sequences of runtime values to their ghost
//! models: the pointwise readings of the sequence views.

use vstd::prelude::*;

use crate::datastructure::{env_items_view, items_view, EnvItem, EnvItemModel, Item, ItemModel};

verus! {

/// `items_view` is the pointwise view of its argument.
pub broadcast proof fn lemma_items_view(s: Seq<Item>)
    ensures
        (#[trigger] items_view(s)).len() == s.len(),
        forall|i: int| 0 <= i < s.len() ==> items_view(s)[i] == s[i]@,
    decreases s,
{
    if s.len() > 0 {
        lemma_items_view(s.drop_last());
        assert(items_view(s) == items_view(s.drop_last()).push(s.last()@));
        assert forall|i: int| 0 <= i < s.len() implies items_view(s)[i] == s[i]@ by {
            if i < s.len() - 1 {
                assert(items_view(s.drop_last()).push(s.last()@)[i] == items_view(
                    s.drop_last(),
                )[i]);
                assert(s.drop_last()[i] == s[i]);
            } else {
                assert(items_view(s.drop_last()).push(s.last()@)[i] == s.last()@);
            }
        }
    }
}

/// `env_items_view` is the pointwise view of its argument.
pub broadcast proof fn lemma_env_items_view(s: Seq<EnvItem>)
    ensures
        (#[trigger] env_items_view(s)).len() == s.len(),
        forall|i: int| 0 <= i < s.len() ==> env_items_view(s)[i] == s[i]@,
    decreases s,
{
    if s.len() > 0 {
        lemma_env_items_view(s.drop_last());
        assert(env_items_view(s) == env_items_view(s.drop_last()).push(s.last()@));
        assert forall|i: int| 0 <= i < s.len() implies env_items_view(s)[i] == s[i]@ by {
            if i < s.len() - 1 {
                assert(env_items_view(s.drop_last()).push(s.last()@)[i] == env_items_view(
                    s.drop_last(),
                )[i]);
                assert(s.drop_last()[i] == s[i]);
            } else {
                assert(env_items_view(s.drop_last()).push(s.last()@)[i] == s.last()@);
            }
        }
    }
}

/// The defining equation of `Item`'s view, kept ambient because the view
/// functions are mutually recursive.
pub broadcast proof fn lemma_item_view(it: Item)
    ensures
        #[trigger] it@ == (match it {
            Item::Number(n) => ItemModel::Number(n as int),
            Item::String(s) => ItemModel::String(s@),
            Item::Boolean(b) => ItemModel::Boolean(b),
            Item::Name(n) => ItemModel::Name(n@),
            Item::Cons(c) => ItemModel::Cons(c@),
            Item::Nil => ItemModel::Nil,
        }),
{
}

/// The defining equation of `EnvItem`'s view, kept ambient because the
/// view functions are mutually recursive.
pub broadcast proof fn lemma_env_item_view(e: EnvItem)
    ensures
        #[trigger] e@ == (match e {
            EnvItem::Function(name, callable, params) => EnvItemModel::Function(
                name@,
                callable@,
                params@,
            ),
            EnvItem::Data(item) => EnvItemModel::Data(item@),
            EnvItem::VariableBinding(args) => EnvItemModel::VariableBinding(env_items_view(args@)),
            EnvItem::Nil => EnvItemModel::Nil,
        }),
{
}

/// The defining equations of the views and their pointwise readings, for
/// use where contracts mix exec values and their models.
pub(crate) broadcast group group_models {
    lemma_item_view,
    lemma_env_item_view,
    lemma_items_view,
    lemma_env_items_view,
}

} // verus!
