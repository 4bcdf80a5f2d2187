//! The settings screen's list of editable items.
use crate::text::{copy_str, text_eq};
use vstd::prelude::*;

verus! {

/// How a setting is shown and edited.
#[derive(Debug, Clone, Copy, PartialEq, Eq, Structural)]
pub enum SettingType {
    SectionHeader,
    Path,
    Number,
    Toggle,
    /// A row that opens another screen when Enter is pressed on it.
    Action,
}

/// One row of the settings screen.
#[derive(Debug, Clone)]
pub struct SettingItem {
    pub key: String,
    pub label: String,
    pub value: String,
    pub setting_type: SettingType,
    pub help: String,
}

/// The rows of the settings screen, which one is selected, and the cursor of the text being
/// edited.
#[derive(Debug)]
pub struct SettingsState {
    pub items: Vec<SettingItem>,
    pub selected_index: usize,
    pub edit_cursor: usize,
}

/// The position of the first item whose key is `key`, if any.
pub open spec fn first_with_key(items: Seq<SettingItem>, key: Seq<char>) -> Option<int>
    decreases items.len(),
{
    if items.len() == 0 {
        None
    } else {
        match first_with_key(items.drop_last(), key) {
            Some(i) => Some(i),
            None => if items.last().key@ == key {
                Some(items.len() - 1)
            } else {
                None
            },
        }
    }
}

proof fn lemma_first_with_key_take(items: Seq<SettingItem>, key: Seq<char>, i: int)
    requires
        0 <= i < items.len(),
        first_with_key(items.take(i), key) is None,
    ensures
        first_with_key(items.take(i + 1), key) == (if items[i].key@ == key {
            Some(i)
        } else {
            None::<int>
        }),
{
    assert(items.take(i + 1).drop_last() =~= items.take(i));
}

proof fn lemma_first_with_key_prefix(items: Seq<SettingItem>, key: Seq<char>, n: int)
    requires
        0 <= n <= items.len(),
        first_with_key(items.take(n), key) is Some,
    ensures
        first_with_key(items, key) == first_with_key(items.take(n), key),
    decreases items.len() - n,
{
    if n < items.len() {
        assert(items.take(n + 1).drop_last() =~= items.take(n));
        lemma_first_with_key_prefix(items, key, n + 1);
    } else {
        assert(items.take(n) =~= items);
    }
}

/// A lookup after appending a row finds the row just added when no earlier row has its key, and
/// otherwise still finds the earlier row: appending never hides an existing setting.
pub proof fn lemma_lookup_after_add(items: Seq<SettingItem>, item: SettingItem, key: Seq<char>)
    ensures
        first_with_key(items.push(item), key) == (match first_with_key(items, key) {
            Some(i) => Some(i),
            None => if item.key@ == key {
                Some(items.len() as int)
            } else {
                None::<int>
            },
        }),
{
    assert(items.push(item).drop_last() =~= items);
}

impl SettingsState {
    /// An empty settings list with the first row selected.
    pub fn new() -> (r: Self)
        ensures
            r.items@.len() == 0,
            r.selected_index == 0,
            r.edit_cursor == 0,
    {
        SettingsState { items: Vec::new(), selected_index: 0, edit_cursor: 0 }
    }

    /// Appends a row.
    pub fn add_setting(
        &mut self,
        key: &str,
        label: &str,
        value: String,
        setting_type: SettingType,
        help: &str,
    )
        ensures
            final(self).items@.len() == old(self).items@.len() + 1,
            final(self).items@.drop_last() == old(self).items@,
            final(self).items@.last().key@ == key@,
            final(self).items@.last().label@ == label@,
            final(self).items@.last().value == value,
            final(self).items@.last().setting_type == setting_type,
            final(self).items@.last().help@ == help@,
            final(self).selected_index == old(self).selected_index,
            final(self).edit_cursor == old(self).edit_cursor,
    {
        let item = SettingItem {
            key: copy_str(key),
            label: copy_str(label),
            value,
            setting_type,
            help: copy_str(help),
        };
        self.items.push(item);
        proof {
            assert(self.items@.drop_last() =~= old(self).items@);
        }
    }

    /// The value of the first row whose key is `key`.
    pub fn get_value(&self, key: &str) -> (r: Option<&String>)
        ensures
            r == (match first_with_key(self.items@, key@) {
                Some(i) => Some(&self.items@[i].value),
                None => None::<&String>,
            }),
    {
        let mut i: usize = 0;
        while i < self.items.len()
            invariant
                i <= self.items@.len(),
                first_with_key(self.items@.take(i as int), key@) is None,
            decreases self.items@.len() - i,
        {
            proof {
                lemma_first_with_key_take(self.items@, key@, i as int);
            }
            if text_eq(self.items[i].key.as_str(), key) {
                proof {
                    lemma_first_with_key_prefix(self.items@, key@, i + 1);
                }
                return Some(&self.items[i].value);
            }
            i = i + 1;
        }
        proof {
            assert(self.items@.take(self.items@.len() as int) =~= self.items@);
        }
        None
    }
}

impl Default for SettingsState {
    fn default() -> (r: Self)
        ensures
            r.items@.len() == 0,
            r.selected_index == 0,
            r.edit_cursor == 0,
    {
        SettingsState::new()
    }
}

} // verus!
