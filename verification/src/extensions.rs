//! The set of file extensions that a run looks for.
use vstd::prelude::*;
use vstd::string::*;
use crate::error::SyncError;

verus! {

/// Whether `text` holds a dot anywhere.
pub open spec fn has_dot(text: Seq<char>) -> bool {
    text.contains('.')
}

/// The first position in `entries` whose text holds a dot, or the length of
/// `entries` if none does.
pub open spec fn first_dotted(entries: Seq<String>) -> int
    decreases entries.len(),
{
    if entries.len() == 0 {
        0
    } else if has_dot(entries[0]@) {
        0
    } else {
        1 + first_dotted(entries.drop_first())
    }
}

/// The texts of `entries`, as a set.
pub open spec fn texts_of(entries: Seq<String>) -> Set<Seq<char>> {
    Set::new(|t: Seq<char>| exists|i: int| 0 <= i < entries.len() && #[trigger] entries[i]@ == t)
}

/// `first_dotted` is a position of a dotted entry, or the length, and every
/// entry before it is free of dots.
pub proof fn lemma_first_dotted(entries: Seq<String>)
    ensures
        0 <= first_dotted(entries) <= entries.len(),
        first_dotted(entries) < entries.len() ==> has_dot(entries[first_dotted(entries)]@),
        forall|i: int| 0 <= i < first_dotted(entries) ==> !has_dot(#[trigger] entries[i]@),
    decreases entries.len(),
{
    if entries.len() > 0 && !has_dot(entries[0]@) {
        let rest = entries.drop_first();
        lemma_first_dotted(rest);
        assert forall|i: int| 0 <= i < first_dotted(entries) implies !has_dot(
            #[trigger] entries[i]@,
        ) by {
            if i > 0 {
                assert(entries[i] == rest[i - 1]);
            }
        }
    }
}

/// The position of the last dot in `text`, or `-1` where it holds none.
pub open spec fn last_dot(text: Seq<char>) -> int
    decreases text.len(),
{
    if text.len() == 0 {
        -1
    } else if text.last() == '.' {
        text.len() - 1
    } else {
        last_dot(text.drop_last())
    }
}

/// The extension of a file name: what follows its last dot. A name without
/// a dot has none, nor has one whose only dot is its first character, nor
/// the name `..`.
pub open spec fn extension_of(name: Seq<char>) -> Option<Seq<char>> {
    if last_dot(name) <= 0 || name == seq!['.', '.'] {
        None
    } else {
        Some(name.subrange(last_dot(name) + 1, name.len() as int))
    }
}

/// `last_dot` is the position of a dot behind which no dot follows, or `-1`
/// where the text holds no dot.
pub proof fn lemma_last_dot(text: Seq<char>)
    ensures
        -1 <= last_dot(text) < text.len(),
        last_dot(text) >= 0 ==> text[last_dot(text)] == '.',
        forall|i: int| last_dot(text) < i < text.len() ==> text[i] != '.',
        last_dot(text) == -1 <==> !has_dot(text),
    decreases text.len(),
{
    if text.len() > 0 && text.last() != '.' {
        let front = text.drop_last();
        lemma_last_dot(front);
        assert forall|i: int| last_dot(text) < i < text.len() implies text[i] != '.' by {
            if i < front.len() {
                assert(front[i] == text[i]);
            }
        }
        if last_dot(text) >= 0 {
            assert(front[last_dot(text)] == text[last_dot(text)]);
        }
        if has_dot(text) {
            let k = choose|k: int| 0 <= k < text.len() && text[k] == '.';
            assert(front[k] == '.');
        }
    }
}

/// An extension holds no dot.
pub proof fn lemma_extension_has_no_dot(name: Seq<char>)
    requires
        extension_of(name) is Some,
    ensures
        !has_dot(extension_of(name)->0),
{
    lemma_last_dot(name);
}

/// The extension of a file name, where it has one.
pub fn file_extension(name: &str) -> (extension: Option<&str>)
    ensures
        match extension {
            Some(text) => extension_of(name@) == Some(text@),
            None => extension_of(name@) is None,
        },
{
    let n: usize = name.unicode_len();
    proof {
        lemma_last_dot(name@);
        reveal_strlit("..");
    }
    let mut i: usize = n;
    while i > 0
        invariant
            n == name@.len(),
            i <= n,
            forall|j: int| i <= j < n ==> name@[j] != '.',
        decreases i,
    {
        if name.get_char(i - 1) == '.' {
            proof {
                lemma_dot_is_last(name@, i - 1);
            }
            if i == 1 {
                return None;
            }
            if n == 2 && name.get_char(0) == '.' {
                assert(name@ =~= seq!['.', '.']);
                return None;
            }
            assert(name@ != seq!['.', '.']) by {
                if name@ == seq!['.', '.'] {
                    assert(name@[0] == '.');
                }
            }
            return Some(name.substring_char(i, n));
        }
        i -= 1;
    }
    proof {
        if last_dot(name@) >= 0 {
            assert(name@[last_dot(name@)] == '.');
        }
    }
    None
}

/// A dot behind which no dot follows is the last dot.
proof fn lemma_dot_is_last(text: Seq<char>, at: int)
    requires
        0 <= at < text.len(),
        text[at] == '.',
        forall|j: int| at < j < text.len() ==> text[j] != '.',
    ensures
        last_dot(text) == at,
{
    lemma_last_dot(text);
    let found = last_dot(text);
    if found < at {
    } else if found > at {
        assert(text[found] == '.');
    }
}

/// Tells whether `text` holds a dot.
pub fn contains_dot(text: &str) -> (found: bool)
    ensures
        found == has_dot(text@),
{
    let n: usize = text.unicode_len();
    let mut i: usize = 0;
    while i < n
        invariant
            n == text@.len(),
            i <= n,
            forall|j: int| 0 <= j < i ==> text@[j] != '.',
        decreases n - i,
    {
        if text.get_char(i) == '.' {
            return true;
        }
        i += 1;
    }
    false
}

/// A set of extensions, none of which holds a dot, kept without repetition in
/// the order in which they were first given.
#[derive(Debug, Clone)]
pub struct ExtensionSet {
    items: Vec<String>,
}

impl View for ExtensionSet {
    type V = Set<Seq<char>>;

    closed spec fn view(&self) -> Set<Seq<char>> {
        texts_of(self.items@)
    }
}

impl ExtensionSet {
    /// The extensions in the order of their first insertion.
    pub closed spec fn order(&self) -> Seq<Seq<char>> {
        Seq::new(self.items@.len(), |i: int| self.items@[i]@)
    }

    /// No extension occurs twice, none holds a dot, and the order lists
    /// exactly the members.
    pub closed spec fn wf(&self) -> bool {
        &&& forall|i: int, j: int|
            0 <= i < j < self.items@.len() ==> #[trigger] self.items@[i]@ != #[trigger] self.items@[j]@
        &&& forall|i: int| 0 <= i < self.items@.len() ==> !has_dot(#[trigger] self.items@[i]@)
    }

    /// A well-formed set is finite, holds no dotted text, and has as many
    /// members as its order is long.
    pub proof fn lemma_wf(&self)
        requires
            self.wf(),
        ensures
            self@.finite(),
            self@.len() == self.order().len(),
            self.order().no_duplicates(),
            self@ == self.order().to_set(),
            forall|t: Seq<char>| self@.contains(t) ==> !has_dot(t),
    {
        let order = self.order();
        assert(self@ =~= order.to_set()) by {
            assert forall|t: Seq<char>| self@.contains(t) implies order.to_set().contains(t) by {
                let i = choose|i: int| 0 <= i < self.items@.len() && #[trigger] self.items@[i]@ == t;
                assert(order[i] == t);
            }
            assert forall|t: Seq<char>| order.to_set().contains(t) implies self@.contains(t) by {
                let i = choose|i: int| 0 <= i < order.len() && order[i] == t;
                assert(self.items@[i]@ == t);
            }
        }
        assert(order.no_duplicates());
        order.unique_seq_to_set();
    }

    /// The empty set.
    pub fn new() -> (set: ExtensionSet)
        ensures
            set.wf(),
            set@ == Set::<Seq<char>>::empty(),
            set.order() == Seq::<Seq<char>>::empty(),
    {
        let set = ExtensionSet { items: Vec::new() };
        assert(set@ =~= Set::<Seq<char>>::empty());
        assert(set.order() =~= Seq::<Seq<char>>::empty());
        set
    }

    /// Tells whether `extension` is a member.
    pub fn contains(&self, extension: &str) -> (found: bool)
        ensures
            found == self@.contains(extension@),
    {
        let wanted: String = extension.to_owned();
        let mut i: usize = 0;
        while i < self.items.len()
            invariant
                i <= self.items@.len(),
                wanted@ == extension@,
                forall|j: int| 0 <= j < i ==> (#[trigger] self.items@[j])@ != extension@,
            decreases self.items@.len() - i,
        {
            if self.items[i] == wanted {
                return true;
            }
            i += 1;
        }
        false
    }

    /// Tells whether a file of this name is looked for: whether it has an
    /// extension and the extension is a member.
    pub fn matches_name(&self, name: &str) -> (wanted: bool)
        ensures
            wanted == (extension_of(name@) matches Some(extension) && self@.contains(extension)),
    {
        match file_extension(name) {
            Some(extension) => self.contains(extension),
            None => false,
        }
    }

    /// Adds `extension` unless it is a member already, and tells whether it
    /// was added.
    pub fn insert(&mut self, extension: &str) -> (added: bool)
        requires
            old(self).wf(),
            !has_dot(extension@),
        ensures
            final(self).wf(),
            final(self)@ == old(self)@.insert(extension@),
            added == !old(self)@.contains(extension@),
            final(self).order() == if added {
                old(self).order().push(extension@)
            } else {
                old(self).order()
            },
    {
        if self.contains(extension) {
            assert(self@ =~= old(self)@.insert(extension@));
            false
        } else {
            let owned: String = extension.to_owned();
            self.items.push(owned);
            assert(self@ =~= old(self)@.insert(extension@)) by {
                assert(self.items@[self.items@.len() - 1]@ == extension@);
                assert forall|t: Seq<char>| old(self)@.contains(t) implies self@.contains(t) by {
                    let i = choose|i: int|
                        0 <= i < old(self).items@.len() && #[trigger] old(self).items@[i]@ == t;
                    assert(self.items@[i]@ == t);
                }
            }
            assert(self.order() =~= old(self).order().push(extension@));
            true
        }
    }

    /// The number of members.
    pub fn len(&self) -> (n: usize)
        requires
            self.wf(),
        ensures
            n == self@.len(),
            n == self.order().len(),
    {
        proof {
            self.lemma_wf();
        }
        self.items.len()
    }

    /// The members in the order of their first insertion.
    pub fn to_vec(&self) -> (list: Vec<String>)
        ensures
            list@.len() == self.order().len(),
            forall|i: int| 0 <= i < list@.len() ==> (#[trigger] list@[i])@ == self.order()[i],
    {
        let mut list: Vec<String> = Vec::new();
        let mut i: usize = 0;
        while i < self.items.len()
            invariant
                i <= self.items@.len(),
                list@.len() == i,
                forall|j: int| 0 <= j < i ==> (#[trigger] list@[j])@ == self.items@[j]@,
            decreases self.items@.len() - i,
        {
            list.push(self.items[i].clone());
            i += 1;
        }
        list
    }
}

/// Builds the lookup set from the configured extension list.
///
/// The list is accepted exactly when no entry holds a dot; the set then holds
/// the text of every entry. Otherwise the first entry with a dot is reported.
pub fn build_extension_set(extensions: &[String]) -> (result: Result<ExtensionSet, SyncError>)
    ensures
        result is Ok <==> first_dotted(extensions@) == extensions@.len(),
        result is Ok <==> forall|i: int| 0 <= i < extensions@.len() ==> !has_dot(#[trigger] extensions@[i]@),
        result matches Ok(set) ==> set.wf() && set@ == texts_of(extensions@),
        result matches Err(e) ==> e matches SyncError::InvalidConfiguration(entry) && entry@
            == extensions@[first_dotted(extensions@)]@,
{
    proof {
        lemma_first_dotted(extensions@);
    }
    let mut set = ExtensionSet::new();
    let mut i: usize = 0;
    while i < extensions.len()
        invariant
            i <= extensions@.len(),
            i <= first_dotted(extensions@) <= extensions@.len(),
            first_dotted(extensions@) < extensions@.len() ==> has_dot(
                extensions@[first_dotted(extensions@)]@,
            ),
            forall|j: int| 0 <= j < first_dotted(extensions@) ==> !has_dot(#[trigger] extensions@[j]@),
            set.wf(),
            set@ == texts_of(extensions@.take(i as int)),
        decreases extensions@.len() - i,
    {
        let entry: &String = &extensions[i];
        if contains_dot(entry.as_str()) {
            assert(first_dotted(extensions@) == i);
            return Err(SyncError::InvalidConfiguration(entry.clone()));
        }
        set.insert(entry.as_str());
        proof {
            let before = extensions@.take(i as int);
            let after = extensions@.take(i + 1);
            assert(texts_of(after) =~= texts_of(before).insert(entry@)) by {
                assert(after[i as int]@ == entry@);
                assert forall|t: Seq<char>| texts_of(before).contains(t) implies texts_of(
                    after,
                ).contains(t) by {
                    let k = choose|k: int| 0 <= k < before.len() && #[trigger] before[k]@ == t;
                    assert(after[k]@ == t);
                }
                assert forall|t: Seq<char>| texts_of(after).contains(t) implies texts_of(
                    before,
                ).insert(entry@).contains(t) by {
                    let k = choose|k: int| 0 <= k < after.len() && #[trigger] after[k]@ == t;
                    if k < i {
                        assert(before[k]@ == t);
                    }
                }
            }
        }
        i += 1;
    }
    assert(extensions@.take(i as int) =~= extensions@);
    Ok(set)
}

} // verus!
