//! What a renderer is configured with.

use vstd::prelude::*;

verus! {

/// A setting that takes one item or a list of items.
#[derive(Debug, Clone, PartialEq, Eq)]
pub enum SerList<T> {
    SingleItem(T),
    List(Vec<T>),
}

impl<T> SerList<T> {
    /// The items that the setting holds, in order.
    pub open spec fn items(&self) -> Seq<T> {
        match self {
            SerList::SingleItem(item) => seq![*item],
            SerList::List(list) => list@,
        }
    }

    /// The number of items.
    pub fn len(&self) -> (n: usize)
        ensures
            n == self.items().len(),
    {
        match self {
            SerList::SingleItem(_) => 1,
            SerList::List(list) => list.len(),
        }
    }

    /// The item at `index`.
    pub fn get(&self, index: usize) -> (item: &T)
        requires
            index < self.items().len(),
        ensures
            *item == self.items()[index as int],
    {
        match self {
            SerList::SingleItem(item) => item,
            SerList::List(list) => &list[index],
        }
    }

    /// The items, in order.
    pub fn iter(&self) -> (items: Vec<&T>)
        ensures
            items@.len() == self.items().len(),
            forall|i: int| 0 <= i < items@.len() ==> *#[trigger] items@[i] == self.items()[i],
    {
        let mut items: Vec<&T> = Vec::new();
        let n = self.len();
        let mut i: usize = 0;
        while i < n
            invariant
                i <= n,
                n == self.items().len(),
                items@.len() == i,
                forall|j: int| 0 <= j < i ==> *#[trigger] items@[j] == self.items()[j],
            decreases n - i,
        {
            items.push(self.get(i));
            i += 1;
        }
        items
    }

    /// The items, in order.
    pub fn into_iter(self) -> (items: Vec<T>)
        ensures
            items@ == self.items(),
    {
        match self {
            SerList::SingleItem(item) => {
                let mut items: Vec<T> = Vec::new();
                items.push(item);
                assert(items@ =~= seq![item]);
                items
            },
            SerList::List(list) => list,
        }
    }
}

impl<T> Default for SerList<T> {
    fn default() -> (list: SerList<T>)
        ensures
            list.items() == Seq::<T>::empty(),
    {
        SerList::List(Vec::new())
    }
}

/// What a renderer writes: one file for each chapter, one for each part, or
/// one for the whole book.
#[derive(Debug, Clone, Copy, PartialEq, Eq, Hash)]
pub enum OutputType {
    Chapter,
    Part,
    Full,
}

/// Whether an output is written, and under which name.
#[derive(Debug, Clone, PartialEq, Eq)]
pub enum OutputFile {
    Enabled(bool),
    Path(String),
}

/// The value that `pairs` gives to `key`: that of the first pair with that
/// key.
pub open spec fn lookup<V>(pairs: Seq<(String, V)>, key: Seq<char>) -> Option<V>
    decreases pairs.len(),
{
    if pairs.len() == 0 {
        None
    } else if pairs[0].0@ == key {
        Some(pairs[0].1)
    } else {
        lookup(pairs.drop_first(), key)
    }
}

/// The value that `pairs` gives to `key` from index `from` on.
pub open spec fn lookup_from<V>(pairs: Seq<(String, V)>, key: Seq<char>, from: int) -> Option<V>
    decreases pairs.len() - from,
{
    if from < 0 || from >= pairs.len() {
        None
    } else if pairs[from].0@ == key {
        Some(pairs[from].1)
    } else {
        lookup_from(pairs, key, from + 1)
    }
}

/// To look a key up from index `from` on is to look it up in what is left
/// after the first `from` pairs.
pub proof fn lemma_lookup_from<V>(pairs: Seq<(String, V)>, key: Seq<char>, from: int)
    requires
        0 <= from <= pairs.len(),
    ensures
        lookup_from(pairs, key, from) == lookup(pairs.skip(from), key),
    decreases pairs.len() - from,
{
    if from < pairs.len() {
        assert(pairs.skip(from)[0] == pairs[from]);
        assert(pairs.skip(from).drop_first() =~= pairs.skip(from + 1));
        lemma_lookup_from(pairs, key, from + 1);
    }
}

/// The value that `pairs` gives to `key`.
pub fn find_entry<'a, V>(pairs: &'a Vec<(String, V)>, key: &str) -> (found: Option<&'a V>)
    ensures
        match found {
            Some(value) => lookup(pairs@, key@) == Some(*value),
            None => lookup(pairs@, key@) is None,
        },
{
    let mut i: usize = 0;
    proof {
        lemma_lookup_from(pairs@, key@, 0);
        assert(pairs@.skip(0) =~= pairs@);
    }
    while i < pairs.len()
        invariant
            i <= pairs.len(),
            lookup(pairs@, key@) == lookup_from(pairs@, key@, i as int),
        decreases pairs.len() - i,
    {
        if crate::text::same_text(pairs[i].0.as_str(), key) {
            return Some(&pairs[i].1);
        }
        i += 1;
    }
    None
}

/// The names of the files that a renderer writes.
#[derive(Debug, Clone, PartialEq, Eq)]
pub struct OutputFileSpec {
    /// The file of the whole book.
    pub full: Option<OutputFile>,
    /// The files of the parts, each under the identifier of its part.
    pub individual_files: Vec<(String, OutputFile)>,
}

impl OutputFileSpec {
    /// What is set for the part `id`.
    pub fn individual(&self, id: &str) -> (found: Option<&OutputFile>)
        ensures
            match found {
                Some(value) => lookup(self.individual_files@, id@) == Some(*value),
                None => lookup(self.individual_files@, id@) is None,
            },
    {
        find_entry(&self.individual_files, id)
    }
}

impl Default for OutputFileSpec {
    fn default() -> (spec: OutputFileSpec)
        ensures
            spec.full is None,
            spec.individual_files@.len() == 0,
    {
        OutputFileSpec { full: None, individual_files: Vec::new() }
    }
}

/// The identifiers of the files that a renderer writes.
#[derive(Debug, Clone, PartialEq, Eq)]
pub struct FileIds<Id> {
    /// The identifier of the whole book.
    pub full: Option<Id>,
    /// The identifiers of the parts, each under the identifier of its part.
    pub individual_files: Vec<(String, Id)>,
}

impl<Id> FileIds<Id> {
    /// The identifier set for the part `id`.
    pub fn individual(&self, id: &str) -> (found: Option<&Id>)
        ensures
            match found {
                Some(value) => lookup(self.individual_files@, id@) == Some(*value),
                None => lookup(self.individual_files@, id@) is None,
            },
    {
        find_entry(&self.individual_files, id)
    }
}

impl<Id> Default for FileIds<Id> {
    fn default() -> (ids: FileIds<Id>)
        ensures
            ids.full is None,
            ids.individual_files@.len() == 0,
    {
        FileIds { full: None, individual_files: Vec::new() }
    }
}

/// The settings that every renderer shares.
#[derive(Debug, Clone, PartialEq, Eq)]
pub struct SharedConfig {
    pub output: Option<SerList<OutputType>>,
    /// The chapters that go into the file of every part.
    pub always_include: Vec<String>,
    pub save_temps: bool,
    pub output_files: OutputFileSpec,
}

impl SharedConfig {
    /// What the renderer writes: what `output` lists, and the whole book
    /// where nothing is set.
    pub open spec fn output_types(&self) -> Seq<OutputType> {
        match self.output {
            Some(list) => list.items(),
            None => seq![OutputType::Full],
        }
    }

    /// What the renderer writes, in the order of the setting.
    pub fn outputs(&self) -> (types: Vec<OutputType>)
        ensures
            types@ == self.output_types(),
    {
        let mut types: Vec<OutputType> = Vec::new();
        match &self.output {
            Some(list) => {
                let n = list.len();
                let mut i: usize = 0;
                while i < n
                    invariant
                        i <= n,
                        n == list.items().len(),
                        types@ == list.items().take(i as int),
                    decreases n - i,
                {
                    types.push(*list.get(i));
                    i += 1;
                    assert(list.items().take(i as int) =~= list.items().take(i - 1).push(
                        list.items()[i - 1],
                    ));
                }
                assert(list.items().take(n as int) =~= list.items());
            },
            None => {
                types.push(OutputType::Full);
                assert(types@ =~= seq![OutputType::Full]);
            },
        }
        types
    }

    /// Whether the chapter rendered to `path` goes into the file of every
    /// part.
    pub fn always_includes(&self, path: &str) -> (b: bool)
        ensures
            b == crate::text::holds_text(self.always_include@, path@),
    {
        crate::text::list_holds(&self.always_include, path)
    }
}

impl Default for SharedConfig {
    fn default() -> (config: SharedConfig)
        ensures
            config.output is None,
            config.always_include@.len() == 0,
            !config.save_temps,
            config.output_files.full is None,
            config.output_files.individual_files@.len() == 0,
            config.output_types() == seq![OutputType::Full],
    {
        SharedConfig {
            output: None,
            always_include: Vec::new(),
            save_temps: false,
            output_files: OutputFileSpec::default(),
        }
    }
}

/// The configuration of a renderer: its own settings around the shared
/// ones.
pub trait Config {
    spec fn shared_settings(&self) -> SharedConfig;

    /// The settings that every renderer shares.
    fn shared(&self) -> (settings: &SharedConfig)
        ensures
            *settings == self.shared_settings(),
    ;
}

impl Config for SharedConfig {
    open spec fn shared_settings(&self) -> SharedConfig {
        *self
    }

    fn shared(&self) -> (settings: &SharedConfig) {
        self
    }
}


/// A walk over the items of a setting that lets each item be changed.
pub struct IterMut<'a, T> {
    /// The setting that is walked.
    pub list: &'a mut SerList<T>,
    /// The number of items that the walk has passed.
    pub next: usize,
}

impl<T> SerList<T> {
    /// The item at `index`, to be changed in place.
    pub fn get_mut(&mut self, index: usize) -> (item: &mut T)
        requires
            index < old(self).items().len(),
        ensures
            *item == old(self).items()[index as int],
            final(self).items() == old(self).items().update(index as int, *final(item)),
            (*final(self) is SingleItem) == (*old(self) is SingleItem),
    {
        match self {
            SerList::SingleItem(item) => {
                proof {
                    assert(seq![*final(item)] =~= seq![*item].update(0, *final(item)));
                }
                item
            },
            SerList::List(list) => &mut list[index],
        }
    }

    /// A walk over the items, from the first on. The walk changes what the
    /// items hold, never how many they are nor whether the setting is one
    /// item or a list.
    pub fn iter_mut(&mut self) -> (iter: IterMut<'_, T>)
        ensures
            iter.position() == 0,
            iter.items() == old(self).items(),
            iter.is_single() == (*old(self) is SingleItem),
            *final(self) == *final(iter.list),
    {
        IterMut { list: self, next: 0 }
    }
}

impl<'a, T> IterMut<'a, T> {
    /// The number of items that the walk has passed.
    pub open spec fn position(&self) -> int {
        self.next as int
    }
}


impl<'a, T> IterMut<'a, T> {
    /// The items of the setting that is walked, as they stand.
    pub open spec fn items(&self) -> Seq<T> {
        self.list.items()
    }

    /// Whether the setting that is walked is one item, not a list.
    pub open spec fn is_single(&self) -> bool {
        *self.list is SingleItem
    }

    /// The next item, to be changed in place; `None` once every item has
    /// been passed.
    pub fn next(&mut self) -> (item: Option<&mut T>)
        ensures
            *final(final(self).list) == *final(old(self).list),
            final(self).is_single() == old(self).is_single(),
            match item {
                Some(item) => old(self).position() < old(self).items().len() && *item == old(
                    self,
                ).items()[old(self).position()] && final(self).position() == old(self).position()
                    + 1 && final(self).items() == old(self).items().update(
                    old(self).position(),
                    *final(item),
                ),
                None => old(self).position() >= old(self).items().len() && final(self).position()
                    == old(self).position() && final(self).items() == old(self).items(),
            },
    {
        if self.next < self.list.len() {
            let at = self.next;
            self.next = at + 1;
            Some(self.list.get_mut(at))
        } else {
            None
        }
    }
}

} // verus!
