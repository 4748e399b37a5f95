//! The registry of tag labels and of which of them are enabled.

use vstd::prelude::*;
use crate::parse::labels;

verus! {

/// The tags met so far, in the order in which they were first met, each with
/// its enabled flag; and the labels that a disable directive has named.
pub struct TagRegistry {
    entries: Vec<(String, bool)>,
    disabled: Vec<String>,
}

/// The model of [`TagRegistry`].
pub struct TagRegistryView {
    pub entries: Seq<(Seq<char>, bool)>,
    pub disabled: Set<Seq<char>>,
}

/// The label and flag of each entry.
pub open spec fn entries_view(v: Seq<(String, bool)>) -> Seq<(Seq<char>, bool)> {
    v.map_values(|e: (String, bool)| (e.0@, e.1))
}

impl View for TagRegistry {
    type V = TagRegistryView;

    closed spec fn view(&self) -> TagRegistryView {
        TagRegistryView {
            entries: entries_view(self.entries@),
            disabled: labels(self.disabled@).to_set(),
        }
    }
}

/// Whether an entry carries the label.
pub open spec fn has_label(entries: Seq<(Seq<char>, bool)>, tag: Seq<char>) -> bool {
    exists|i: int| 0 <= i < entries.len() && (#[trigger] entries[i]).0 == tag
}

/// The flag of the first entry with the label, if there is one.
pub open spec fn lookup(entries: Seq<(Seq<char>, bool)>, tag: Seq<char>) -> Option<bool>
    decreases entries.len(),
{
    if entries.len() == 0 {
        None
    } else if entries[0].0 == tag {
        Some(entries[0].1)
    } else {
        lookup(entries.drop_first(), tag)
    }
}

impl TagRegistryView {
    /// No label occurs twice.
    pub open spec fn wf(self) -> bool {
        forall|i: int, j: int|
            0 <= i < j < self.entries.len() ==> (#[trigger] self.entries[i]).0 != (
            #[trigger] self.entries[j]).0
    }

    /// The registry with no tag.
    pub open spec fn empty() -> TagRegistryView {
        TagRegistryView { entries: Seq::empty(), disabled: Set::empty() }
    }

    /// Meeting a tag on a figure: a new tag gets an entry, enabled unless a
    /// disable directive has named it before; a known tag changes nothing.
    pub open spec fn register(self, tag: Seq<char>) -> TagRegistryView {
        if has_label(self.entries, tag) {
            self
        } else {
            TagRegistryView {
                entries: self.entries.push((tag, !self.disabled.contains(tag))),
                ..self
            }
        }
    }

    /// Meeting the tags of a figure, in their order.
    pub open spec fn register_all(self, tags: Seq<Seq<char>>) -> TagRegistryView
        decreases tags.len(),
    {
        if tags.len() == 0 {
            self
        } else {
            self.register_all(tags.drop_last()).register(tags.last())
        }
    }

    /// A disable directive: every entry with the label is switched off, and
    /// the label is remembered for entries to come.
    pub open spec fn disable(self, tag: Seq<char>) -> TagRegistryView {
        TagRegistryView {
            entries: self.entries.map_values(
                |e: (Seq<char>, bool)|
                    if e.0 == tag {
                        (e.0, false)
                    } else {
                        e
                    },
            ),
            disabled: self.disabled.insert(tag),
        }
    }

    /// The labels of the enabled entries, in order.
    pub open spec fn enabled(self) -> Seq<Seq<char>>
        decreases self.entries.len(),
    {
        if self.entries.len() == 0 {
            Seq::empty()
        } else {
            let rest = (TagRegistryView { entries: self.entries.drop_last(), ..self }).enabled();
            if self.entries.last().1 {
                rest.push(self.entries.last().0)
            } else {
                rest
            }
        }
    }
}

/// Registering keeps the labels distinct.
pub proof fn lemma_register_wf(r: TagRegistryView, tag: Seq<char>)
    requires
        r.wf(),
    ensures
        r.register(tag).wf(),
{
    if !has_label(r.entries, tag) {
        let e = r.register(tag).entries;
        assert forall|i: int, j: int| 0 <= i < j < e.len() implies (#[trigger] e[i]).0 != (
        #[trigger] e[j]).0 by {
            if j == r.entries.len() {
                assert(r.entries[i].0 != tag);
            } else {
                assert(e[i] == r.entries[i] && e[j] == r.entries[j]);
            }
        }
    }
}

/// Registering several tags keeps the labels distinct.
pub proof fn lemma_register_all_wf(r: TagRegistryView, tags: Seq<Seq<char>>)
    requires
        r.wf(),
    ensures
        r.register_all(tags).wf(),
    decreases tags.len(),
{
    if tags.len() > 0 {
        lemma_register_all_wf(r, tags.drop_last());
        lemma_register_wf(r.register_all(tags.drop_last()), tags.last());
    }
}

/// Disabling keeps the labels distinct.
pub proof fn lemma_disable_wf(r: TagRegistryView, tag: Seq<char>)
    requires
        r.wf(),
    ensures
        r.disable(tag).wf(),
{
    let e = r.disable(tag).entries;
    assert forall|i: int, j: int| 0 <= i < j < e.len() implies (#[trigger] e[i]).0 != (
    #[trigger] e[j]).0 by {
        assert(e[i].0 == r.entries[i].0 && e[j].0 == r.entries[j].0);
    }
}

fn holds(v: &Vec<String>, tag: &String) -> (b: bool)
    ensures
        b == labels(v@).to_set().contains(tag@),
{
    let mut i: usize = 0;
    while i < v.len()
        invariant
            i <= v.len(),
            forall|k: int| 0 <= k < i ==> #[trigger] labels(v@)[k] != tag@,
        decreases v.len() - i,
    {
        if v[i] == *tag {
            assert(labels(v@)[i as int] == tag@);
            assert(labels(v@).contains(tag@));
            return true;
        }
        assert(labels(v@)[i as int] == v@[i as int]@);
        i += 1;
    }
    assert(!labels(v@).contains(tag@));
    false
}

impl TagRegistry {
    /// A registry with no tag.
    pub fn new() -> (r: TagRegistry)
        ensures
            r@ == TagRegistryView::empty(),
            r@.wf(),
    {
        let r = TagRegistry { entries: Vec::new(), disabled: Vec::new() };
        assert(r@.entries =~= Seq::empty());
        assert(r@.disabled =~= Set::empty());
        r
    }

    /// The number of tags met so far.
    pub fn len(&self) -> (n: usize)
        ensures
            n == self@.entries.len(),
    {
        self.entries.len()
    }

    /// The label of the entry at `index`.
    pub fn label(&self, index: usize) -> (l: &String)
        requires
            index < self@.entries.len(),
        ensures
            l@ == self@.entries[index as int].0,
    {
        &self.entries[index].0
    }

    /// Whether the entry at `index` is enabled.
    pub fn is_enabled(&self, index: usize) -> (b: bool)
        requires
            index < self@.entries.len(),
        ensures
            b == self@.entries[index as int].1,
    {
        self.entries[index].1
    }

    /// Whether a tag has an entry.
    pub fn knows(&self, tag: &String) -> (b: bool)
        ensures
            b == has_label(self@.entries, tag@),
    {
        let mut i: usize = 0;
        while i < self.entries.len()
            invariant
                i <= self.entries.len(),
                forall|k: int| 0 <= k < i ==> (#[trigger] self@.entries[k]).0 != tag@,
            decreases self.entries.len() - i,
        {
            if self.entries[i].0 == *tag {
                assert(self@.entries[i as int].0 == tag@);
                return true;
            }
            assert(self@.entries[i as int].0 == self.entries@[i as int].0@);
            i += 1;
        }
        false
    }

    /// Meets a tag on a figure.
    pub fn register(&mut self, tag: &String)
        ensures
            final(self)@ == old(self)@.register(tag@),
            old(self)@.wf() ==> final(self)@.wf(),
    {
        proof {
            if old(self)@.wf() {
                lemma_register_wf(old(self)@, tag@);
            }
        }
        if !self.knows(tag) {
            let enabled = !holds(&self.disabled, tag);
            self.entries.push((tag.clone(), enabled));
            assert(self@.entries =~= old(self)@.entries.push((tag@, enabled)));
        }
    }

    /// Meets the tags of a figure, in their order.
    pub fn register_all(&mut self, tags: &Vec<String>)
        ensures
            final(self)@ == old(self)@.register_all(labels(tags@)),
            old(self)@.wf() ==> final(self)@.wf(),
    {
        proof {
            if old(self)@.wf() {
                lemma_register_all_wf(old(self)@, labels(tags@));
            }
        }
        let mut i: usize = 0;
        while i < tags.len()
            invariant
                i <= tags.len(),
                self@ == old(self)@.register_all(labels(tags@).take(i as int)),
            decreases tags.len() - i,
        {
            self.register(&tags[i]);
            assert(labels(tags@).take(i + 1).drop_last() =~= labels(tags@).take(i as int));
            i += 1;
        }
        assert(labels(tags@).take(tags.len() as int) =~= labels(tags@));
    }

    /// Applies a disable directive.
    pub fn disable(&mut self, tag: &String)
        ensures
            final(self)@ == old(self)@.disable(tag@),
            old(self)@.wf() ==> final(self)@.wf(),
    {
        proof {
            if old(self)@.wf() {
                lemma_disable_wf(old(self)@, tag@);
            }
        }
        let ghost target = old(self)@.disable(tag@).entries;
        let mut i: usize = 0;
        while i < self.entries.len()
            invariant
                i <= self.entries.len(),
                self.entries.len() == old(self).entries.len(),
                self.disabled == old(self).disabled,
                target == old(self)@.disable(tag@).entries,
                forall|k: int| 0 <= k < i ==> entries_view(self.entries@)[k] == target[k],
                forall|k: int|
                    i <= k < self.entries.len() ==> entries_view(self.entries@)[k] == old(
                        self,
                    )@.entries[k],
            decreases self.entries.len() - i,
        {
            let ghost cur = entries_view(self.entries@);
            assert(cur[i as int] == old(self)@.entries[i as int]);
            if self.entries[i].0 == *tag {
                let label = self.entries[i].0.clone();
                self.entries.set(i, (label, false));
                assert(entries_view(self.entries@) =~= cur.update(i as int, (tag@, false)));
            }
            assert(entries_view(self.entries@)[i as int] == target[i as int]);
            i += 1;
        }
        let ghost before = labels(self.disabled@);
        self.disabled.push(tag.clone());
        proof {
            assert(labels(self.disabled@) =~= before.push(tag@));
            before.lemma_push_to_set_commute(tag@);
            assert(self@.entries =~= target);
        }
    }

    /// Switches the entry at `index` on or off, as a user does.
    pub fn set_enabled(&mut self, index: usize, enabled: bool)
        requires
            index < old(self)@.entries.len(),
        ensures
            final(self)@ == (TagRegistryView {
                entries: old(self)@.entries.update(
                    index as int,
                    (old(self)@.entries[index as int].0, enabled),
                ),
                ..old(self)@
            }),
            old(self)@.wf() ==> final(self)@.wf(),
    {
        let label = self.entries[index].0.clone();
        self.entries.set(index, (label, enabled));
        proof {
            if old(self)@.wf() {
                let before = old(self)@.entries;
                let after = before.update(index as int, (before[index as int].0, enabled));
                assert forall|i: int, j: int| 0 <= i < j < after.len() implies (
                #[trigger] after[i]).0 != (#[trigger] after[j]).0 by {
                    assert(after[i].0 == before[i].0 && after[j].0 == before[j].0);
                }
            }
        }
        assert(self@.entries =~= old(self)@.entries.update(
            index as int,
            (old(self)@.entries[index as int].0, enabled),
        ));
    }

    /// The labels of the enabled entries, in order.
    pub fn enabled_tags(&self) -> (out: Vec<String>)
        ensures
            labels(out@) == self@.enabled(),
    {
        let mut out: Vec<String> = Vec::new();
        let mut i: usize = 0;
        let ghost view = self@;
        assert(labels(out@) =~= Seq::<Seq<char>>::empty());
        assert(view.entries.take(0) =~= Seq::<(Seq<char>, bool)>::empty());
        while i < self.entries.len()
            invariant
                i <= self.entries.len(),
                view == self@,
                labels(out@) == (TagRegistryView {
                    entries: view.entries.take(i as int),
                    ..view
                }).enabled(),
            decreases self.entries.len() - i,
        {
            assert(view.entries.take(i + 1).drop_last() =~= view.entries.take(i as int));
            assert(view.entries.take(i + 1).last() == (self.entries@[i as int].0@, self.entries@[i as int].1));
            if self.entries[i].1 {
                let label = self.entries[i].0.clone();
                let ghost before = labels(out@);
                out.push(label);
                assert(labels(out@) =~= before.push(label@));
            }
            i += 1;
        }
        assert(view.entries.take(self.entries.len() as int) =~= view.entries);
        out
    }
}

} // verus!
