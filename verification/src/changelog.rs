//! The run aggregate: what the hooks of one run examined, changed and
//! reported, per hook id, and the changelog text that is written from it.
//!
//! The aggregate lives for one run. It is filled by the hooks as they
//! execute and rendered once at the end, if anything changed.

use crate::text::text_eq;
use vstd::prelude::*;

verus! {

broadcast use vstd::string::group_string_axioms;

/// What one hook did in this run.
#[derive(Debug)]
pub struct ChangelogEntry {
    pub hook_id: String,
    /// Free-text descriptions of what the hook found or changed.
    pub changes: Vec<String>,
    /// The files that the hook examined.
    pub files_checked: Vec<String>,
    /// The files that the hook rewrote.
    pub files_modified: Vec<String>,
}

/// The mathematical content of a [`ChangelogEntry`].
pub struct EntryView {
    pub hook_id: Seq<char>,
    pub changes: Seq<Seq<char>>,
    pub files_checked: Seq<Seq<char>>,
    pub files_modified: Seq<Seq<char>>,
}

impl View for ChangelogEntry {
    type V = EntryView;

    open spec fn view(&self) -> EntryView {
        EntryView {
            hook_id: self.hook_id@,
            changes: self.changes.deep_view(),
            files_checked: self.files_checked.deep_view(),
            files_modified: self.files_modified.deep_view(),
        }
    }
}

impl DeepView for ChangelogEntry {
    type V = EntryView;

    open spec fn deep_view(&self) -> EntryView {
        self@
    }
}

/// The entry of a hook of which nothing was recorded yet.
pub open spec fn fresh_entry(hook_id: Seq<char>) -> EntryView {
    EntryView {
        hook_id,
        changes: Seq::empty(),
        files_checked: Seq::empty(),
        files_modified: Seq::empty(),
    }
}

impl Default for ChangelogEntry {
    fn default() -> (r: Self)
        ensures
            r@ == fresh_entry(Seq::empty()),
    {
        let r = ChangelogEntry {
            hook_id: String::new(),
            changes: Vec::new(),
            files_checked: Vec::new(),
            files_modified: Vec::new(),
        };
        proof {
            assert(r.changes.deep_view() =~= Seq::<Seq<char>>::empty());
            assert(r.files_checked.deep_view() =~= Seq::<Seq<char>>::empty());
            assert(r.files_modified.deep_view() =~= Seq::<Seq<char>>::empty());
        }
        r
    }
}

/// The aggregate of a run: the entries in the order in which their hooks
/// were first heard of, each under the id it was opened for. No two entries
/// are opened for the same id: a new aggregate holds none, and every method
/// keeps it so.
#[derive(Debug)]
pub struct Changelog {
    entries: Vec<(String, ChangelogEntry)>,
    has_changes: bool,
}

/// The mathematical content of a [`Changelog`].
pub struct ChangelogView {
    pub entries: Seq<(Seq<char>, EntryView)>,
    pub has_changes: bool,
}

/// The position of the entry that was opened for `id`, or the number of
/// entries where none was.
pub open spec fn position(entries: Seq<(Seq<char>, EntryView)>, id: Seq<char>) -> int
    decreases entries.len(),
{
    if entries.len() == 0 {
        0
    } else if entries[0].0 == id {
        0
    } else {
        1 + position(entries.drop_first(), id)
    }
}

/// What [`position`] returns.
pub proof fn lemma_position(entries: Seq<(Seq<char>, EntryView)>, id: Seq<char>)
    ensures
        0 <= position(entries, id) <= entries.len(),
        forall|j: int| 0 <= j < position(entries, id) ==> (#[trigger] entries[j]).0 != id,
        position(entries, id) < entries.len() ==> entries[position(entries, id)].0 == id,
    decreases entries.len(),
{
    if entries.len() > 0 && entries[0].0 != id {
        let t = entries.drop_first();
        lemma_position(t, id);
        assert forall|j: int| 0 <= j < position(entries, id) implies (#[trigger] entries[j]).0
            != id by {
            if j > 0 {
                assert(t[j - 1] == entries[j]);
            }
        }
    }
}

/// A position that holds the first entry opened for `id`, or is the number
/// of entries where there is none, is the one [`position`] returns.
pub proof fn lemma_position_is(entries: Seq<(Seq<char>, EntryView)>, id: Seq<char>, k: int)
    requires
        0 <= k <= entries.len(),
        forall|j: int| 0 <= j < k ==> (#[trigger] entries[j]).0 != id,
        k < entries.len() ==> entries[k].0 == id,
    ensures
        position(entries, id) == k,
    decreases entries.len(),
{
    if entries.len() > 0 && k > 0 {
        let t = entries.drop_first();
        assert forall|j: int| 0 <= j < k - 1 implies (#[trigger] t[j]).0 != id by {
            assert(t[j] == entries[j + 1]);
        }
        assert(entries[0].0 != id);
        lemma_position_is(t, id, k - 1);
    }
}

/// Whether no two entries were opened for the same id.
pub open spec fn distinct_ids(entries: Seq<(Seq<char>, EntryView)>) -> bool {
    forall|i: int, j: int|
        0 <= i < j < entries.len() ==> (#[trigger] entries[i]).0 != (#[trigger] entries[j]).0
}

/// The entries with one opened for `id`, if there was none.
pub open spec fn opened(entries: Seq<(Seq<char>, EntryView)>, id: Seq<char>) -> Seq<
    (Seq<char>, EntryView),
> {
    if position(entries, id) < entries.len() {
        entries
    } else {
        entries.push((id, fresh_entry(id)))
    }
}

/// The entries after the entry of `id` was replaced by `entry`.
pub open spec fn replaced(
    entries: Seq<(Seq<char>, EntryView)>,
    id: Seq<char>,
    entry: EntryView,
) -> Seq<(Seq<char>, EntryView)> {
    opened(entries, id).update(position(entries, id), (id, entry))
}

/// The entry of `id`, opened if need be.
pub open spec fn entry_of(entries: Seq<(Seq<char>, EntryView)>, id: Seq<char>) -> EntryView {
    opened(entries, id)[position(entries, id)].1
}

/// Opening and replacing entries never makes two entries share an id.
pub proof fn lemma_replaced_distinct(
    entries: Seq<(Seq<char>, EntryView)>,
    id: Seq<char>,
    entry: EntryView,
)
    requires
        distinct_ids(entries),
    ensures
        distinct_ids(replaced(entries, id, entry)),
        position(replaced(entries, id, entry), id) == position(entries, id),
        entry_of(replaced(entries, id, entry), id) == entry,
{
    lemma_position(entries, id);
    let k = position(entries, id);
    let out = replaced(entries, id, entry);
    assert forall|i: int, j: int| 0 <= i < j < out.len() implies (#[trigger] out[i]).0 != (
    #[trigger] out[j]).0 by {
        if i < entries.len() && j < entries.len() {
            assert(entries[i].0 != entries[j].0);
        } else if i < entries.len() {
            assert(entries[i].0 != id);
        }
    }
    assert forall|j: int| 0 <= j < k implies (#[trigger] out[j]).0 != id by {
        assert(entries[j].0 != id);
    }
    lemma_position_is(out, id, k);
}

impl ChangelogView {
    /// The aggregate after the hook reported a change.
    pub open spec fn with_change(self, id: Seq<char>, message: Seq<char>) -> ChangelogView {
        let entry = entry_of(self.entries, id);
        ChangelogView {
            entries: replaced(
                self.entries,
                id,
                EntryView { changes: entry.changes.push(message), ..entry },
            ),
            has_changes: true,
        }
    }

    /// The aggregate after the hook examined a file.
    pub open spec fn with_checked(self, id: Seq<char>, path: Seq<char>) -> ChangelogView {
        let entry = entry_of(self.entries, id);
        ChangelogView {
            entries: replaced(
                self.entries,
                id,
                EntryView { files_checked: entry.files_checked.push(path), ..entry },
            ),
            has_changes: self.has_changes,
        }
    }

    /// The aggregate after the hook rewrote a file.
    pub open spec fn with_modified(self, id: Seq<char>, path: Seq<char>) -> ChangelogView {
        let entry = entry_of(self.entries, id);
        ChangelogView {
            entries: replaced(
                self.entries,
                id,
                EntryView { files_modified: entry.files_modified.push(path), ..entry },
            ),
            has_changes: true,
        }
    }

    /// The aggregate after the hook examined each of the files, in order.
    pub open spec fn with_all_checked(self, id: Seq<char>, paths: Seq<Seq<char>>) -> ChangelogView
        decreases paths.len(),
    {
        if paths.len() == 0 {
            self
        } else {
            self.with_all_checked(id, paths.drop_last()).with_checked(id, paths.last())
        }
    }
}

impl View for Changelog {
    type V = ChangelogView;

    closed spec fn view(&self) -> ChangelogView {
        ChangelogView { entries: self.entries.deep_view(), has_changes: self.has_changes }
    }
}

impl Changelog {
    /// An aggregate that holds nothing.
    pub fn new() -> (r: Self)
        ensures
            r@ == (ChangelogView { entries: Seq::empty(), has_changes: false }),
            distinct_ids(r@.entries),
    {
        let r = Changelog { entries: Vec::new(), has_changes: false };
        proof {
            assert(r.entries.deep_view() =~= Seq::<(Seq<char>, EntryView)>::empty());
        }
        r
    }

    /// The position of the entry that was opened for `hook_id`.
    fn find(&self, hook_id: &str) -> (k: usize)
        ensures
            k == position(self@.entries, hook_id@),
            k <= self.entries@.len(),
    {
        let mut k: usize = 0;
        while k < self.entries.len()
            invariant
                k <= self.entries@.len(),
                forall|j: int| 0 <= j < k ==> (#[trigger] self@.entries[j]).0 != hook_id@,
            decreases self.entries@.len() - k,
        {
            assert(self@.entries[k as int].0 == self.entries@[k as int].0@);
            if text_eq(self.entries[k].0.as_str(), hook_id) {
                proof {
                    lemma_position_is(self@.entries, hook_id@, k as int);
                }
                return k;
            }
            k = k + 1;
        }
        proof {
            lemma_position_is(self@.entries, hook_id@, k as int);
        }
        k
    }

    /// The entry of `hook_id`, opened if there was none. What the caller
    /// writes through the reference becomes the entry of the hook.
    pub fn add_entry(&mut self, hook_id: &str) -> (entry: &mut ChangelogEntry)
        ensures
            entry@ == entry_of(old(self)@.entries, hook_id@),
            final(self)@.entries == replaced(old(self)@.entries, hook_id@, final(entry)@),
            final(self)@.has_changes == old(self)@.has_changes,
            distinct_ids(old(self)@.entries) ==> distinct_ids(final(self)@.entries),
    {
        let k = self.find(hook_id);
        if k == self.entries.len() {
            let fresh = ChangelogEntry {
                hook_id: hook_id.to_owned(),
                changes: Vec::new(),
                files_checked: Vec::new(),
                files_modified: Vec::new(),
            };
            proof {
                assert(fresh.changes.deep_view() =~= Seq::<Seq<char>>::empty());
                assert(fresh.files_checked.deep_view() =~= Seq::<Seq<char>>::empty());
                assert(fresh.files_modified.deep_view() =~= Seq::<Seq<char>>::empty());
            }
            self.entries.push((hook_id.to_owned(), fresh));
            proof {
                assert(self.entries.deep_view() =~= opened(old(self)@.entries, hook_id@));
            }
        }
        proof {
            lemma_position(old(self)@.entries, hook_id@);
            assert(self.entries.deep_view() =~= opened(old(self)@.entries, hook_id@));
        }
        assert(self.entries@[k as int].0@ == hook_id@);
        proof {
            let first = old(self)@.entries;
            let held = self.entries.deep_view();
            if distinct_ids(first) {
                lemma_replaced_distinct(first, hook_id@, entry_of(first, hook_id@));
                assert(replaced(first, hook_id@, entry_of(first, hook_id@)) =~= held);
                assert(distinct_ids(held));
            }
        }
        let slot = &mut self.entries[k];
        &mut slot.1
    }

    /// Notes a description of what the hook found or changed.
    pub fn record_change(&mut self, hook_id: &str, message: &str)
        ensures
            final(self)@ == old(self)@.with_change(hook_id@, message@),
            distinct_ids(old(self)@.entries) ==> distinct_ids(final(self)@.entries),
    {
        let entry = self.add_entry(hook_id);
        let ghost before = entry.changes.deep_view();
        entry.changes.push(message.to_owned());
        proof {
            assert(entry.changes.deep_view() =~= before.push(message@));
        }
        self.has_changes = true;
    }

    /// Notes that the hook examined the file.
    pub fn record_file_checked(&mut self, hook_id: &str, path: &str)
        ensures
            final(self)@ == old(self)@.with_checked(hook_id@, path@),
            distinct_ids(old(self)@.entries) ==> distinct_ids(final(self)@.entries),
    {
        let entry = self.add_entry(hook_id);
        let ghost before = entry.files_checked.deep_view();
        entry.files_checked.push(path.to_owned());
        proof {
            assert(entry.files_checked.deep_view() =~= before.push(path@));
        }
    }

    /// Notes that the hook rewrote the file.
    pub fn record_file_modified(&mut self, hook_id: &str, path: &str)
        ensures
            final(self)@ == old(self)@.with_modified(hook_id@, path@),
            distinct_ids(old(self)@.entries) ==> distinct_ids(final(self)@.entries),
    {
        let entry = self.add_entry(hook_id);
        let ghost before = entry.files_modified.deep_view();
        entry.files_modified.push(path.to_owned());
        proof {
            assert(entry.files_modified.deep_view() =~= before.push(path@));
        }
        self.has_changes = true;
    }

    /// Notes that the hook examined each of the files.
    pub fn record_files_checked(&mut self, hook_id: &str, paths: &Vec<String>)
        ensures
            final(self)@ == old(self)@.with_all_checked(hook_id@, paths.deep_view()),
            distinct_ids(old(self)@.entries) ==> distinct_ids(final(self)@.entries),
    {
        let ghost all = paths.deep_view();
        let mut i: usize = 0;
        proof {
            assert(all.take(0) =~= Seq::<Seq<char>>::empty());
        }
        while i < paths.len()
            invariant
                i <= paths@.len(),
                all == paths.deep_view(),
                self@ == old(self)@.with_all_checked(hook_id@, all.take(i as int)),
                distinct_ids(old(self)@.entries) ==> distinct_ids(self@.entries),
            decreases paths@.len() - i,
        {
            self.record_file_checked(hook_id, paths[i].as_str());
            proof {
                assert(all.take(i + 1).drop_last() =~= all.take(i as int));
                assert(all.take(i + 1).last() == paths@[i as int]@);
            }
            i = i + 1;
        }
        proof {
            assert(all.take(i as int) =~= all);
        }
    }

    /// Whether a change or a rewritten file was recorded in this run.
    pub fn has_changes(&self) -> (r: bool)
        ensures
            r == self@.has_changes,
    {
        self.has_changes
    }
}

/// One line per item: each item between `open` and `close`.
pub open spec fn bullets(items: Seq<Seq<char>>, open: Seq<char>, close: Seq<char>) -> Seq<char>
    decreases items.len(),
{
    if items.len() == 0 {
        Seq::empty()
    } else {
        bullets(items.drop_last(), open, close) + open + items.last() + close
    }
}

/// A titled list, closed by an empty line; nothing where the list is empty.
pub open spec fn section(
    title: Seq<char>,
    items: Seq<Seq<char>>,
    open: Seq<char>,
    close: Seq<char>,
) -> Seq<char> {
    if items.len() == 0 {
        Seq::empty()
    } else {
        title + bullets(items, open, close) + "\n"@
    }
}

/// The files that the hook examined and did not rewrite, in the order in
/// which it examined them.
pub open spec fn unmodified(entry: EntryView) -> Seq<Seq<char>> {
    entry.files_checked.filter(|f: Seq<char>| !entry.files_modified.contains(f))
}

/// The part of the changelog that reports one hook. A hook that neither
/// reported a change nor rewrote a file is passed over.
pub open spec fn render_entry(entry: EntryView) -> Seq<char> {
    if entry.changes.len() == 0 && entry.files_modified.len() == 0 {
        Seq::empty()
    } else {
        "## Hook: "@ + entry.hook_id + "\n\n"@ + section(
            "### Changes:\n"@,
            entry.changes,
            "- "@,
            "\n"@,
        ) + section("### Modified Files:\n"@, entry.files_modified, "- `"@, "`\n"@) + section(
            "### Checked Files (no changes):\n"@,
            unmodified(entry),
            "- `"@,
            "`\n"@,
        )
    }
}

/// The reports of the hooks, in the order of the entries.
pub open spec fn render_entries(entries: Seq<(Seq<char>, EntryView)>) -> Seq<char>
    decreases entries.len(),
{
    if entries.len() == 0 {
        Seq::empty()
    } else {
        render_entries(entries.drop_last()) + render_entry(entries.last().1)
    }
}

/// The changelog text of a run that ended at `timestamp`.
pub open spec fn rendered(log: ChangelogView, timestamp: Seq<char>) -> Seq<char> {
    "# Pre-commit Changes "@ + timestamp + "\n\n"@ + render_entries(log.entries)
}

/// The new content of the changelog file: the text of this run, set before
/// what the file held, with a rule between the two.
pub open spec fn merged(content: Seq<char>, existing: Seq<char>) -> Seq<char> {
    if existing.len() == 0 {
        content
    } else {
        content + "\n---\n\n"@ + existing
    }
}

/// Whether the list holds the text.
fn list_has(list: &Vec<String>, text: &str) -> (r: bool)
    ensures
        r == list.deep_view().contains(text@),
{
    let mut k: usize = 0;
    while k < list.len()
        invariant
            k <= list@.len(),
            forall|j: int| 0 <= j < k ==> list.deep_view()[j] != text@,
        decreases list@.len() - k,
    {
        if text_eq(list[k].as_str(), text) {
            assert(list.deep_view()[k as int] == text@);
            return true;
        }
        k = k + 1;
    }
    false
}

/// Dropping the rewritten files from the examined ones, one more examined
/// file at the end.
proof fn lemma_unmodified_push(checked: Seq<Seq<char>>, last: Seq<char>, entry: EntryView)
    ensures
        checked.push(last).filter(|f: Seq<char>| !entry.files_modified.contains(f)) == if
            !entry.files_modified.contains(last) {
            checked.filter(|f: Seq<char>| !entry.files_modified.contains(f)).push(last)
        } else {
            checked.filter(|f: Seq<char>| !entry.files_modified.contains(f))
        },
{
    reveal(Seq::filter);
    assert(checked.push(last).drop_last() =~= checked);
}

/// Appends one line per item to the text.
fn append_bullets(out: &mut String, items: &Vec<String>, open: &str, close: &str)
    ensures
        final(out)@ == old(out)@ + bullets(items.deep_view(), open@, close@),
{
    let ghost all = items.deep_view();
    let mut i: usize = 0;
    proof {
        assert(all.take(0) =~= Seq::<Seq<char>>::empty());
        assert(out@ =~= old(out)@ + bullets(all.take(0), open@, close@));
    }
    while i < items.len()
        invariant
            i <= items@.len(),
            all == items.deep_view(),
            out@ == old(out)@ + bullets(all.take(i as int), open@, close@),
        decreases items@.len() - i,
    {
        let ghost before = out@;
        out.append(open);
        out.append(items[i].as_str());
        out.append(close);
        proof {
            assert(all.take(i + 1).drop_last() =~= all.take(i as int));
            assert(all.take(i + 1).last() == items@[i as int]@);
            assert(out@ =~= old(out)@ + bullets(all.take(i + 1), open@, close@));
        }
        i = i + 1;
    }
    proof {
        assert(all.take(i as int) =~= all);
    }
}

/// Appends a titled list to the text, if the list holds anything.
fn append_section(out: &mut String, title: &str, items: &Vec<String>, open: &str, close: &str)
    ensures
        final(out)@ == old(out)@ + section(title@, items.deep_view(), open@, close@),
{
    if items.len() > 0 {
        out.append(title);
        append_bullets(out, items, open, close);
        out.append("\n");
        proof {
            assert(out@ =~= old(out)@ + section(title@, items.deep_view(), open@, close@));
        }
    } else {
        proof {
            assert(items.deep_view().len() == 0);
            assert(out@ =~= old(out)@ + Seq::<char>::empty());
        }
    }
}

/// The examined files that were not rewritten.
fn unmodified_files(entry: &ChangelogEntry) -> (out: Vec<String>)
    ensures
        out.deep_view() == unmodified(entry@),
{
    let ghost checked = entry.files_checked.deep_view();
    let ghost keep = |f: Seq<char>| !entry@.files_modified.contains(f);
    let mut out: Vec<String> = Vec::new();
    let mut i: usize = 0;
    proof {
        reveal(Seq::filter);
        assert(checked.take(0) =~= Seq::<Seq<char>>::empty());
        assert(out.deep_view() =~= checked.take(0).filter(keep));
    }
    while i < entry.files_checked.len()
        invariant
            i <= entry.files_checked@.len(),
            checked == entry.files_checked.deep_view(),
            keep == |f: Seq<char>| !entry@.files_modified.contains(f),
            out.deep_view() == checked.take(i as int).filter(keep),
        decreases entry.files_checked@.len() - i,
    {
        let file = &entry.files_checked[i];
        let ghost prev = out.deep_view();
        proof {
            assert(checked.take(i + 1) =~= checked.take(i as int).push(file@));
            lemma_unmodified_push(checked.take(i as int), file@, entry@);
        }
        if !list_has(&entry.files_modified, file.as_str()) {
            out.push(file.clone());
            proof {
                assert(out.deep_view() =~= prev.push(file@));
            }
        }
        i = i + 1;
    }
    proof {
        assert(checked.take(i as int) =~= checked);
    }
    out
}

/// Appends the report of one hook to the text.
fn append_entry(out: &mut String, entry: &ChangelogEntry)
    ensures
        final(out)@ == old(out)@ + render_entry(entry@),
{
    if entry.changes.len() == 0 && entry.files_modified.len() == 0 {
        proof {
            assert(entry@.changes.len() == 0 && entry@.files_modified.len() == 0);
            assert(out@ =~= old(out)@ + Seq::<char>::empty());
        }
        return ;
    }
    out.append("## Hook: ");
    out.append(entry.hook_id.as_str());
    out.append("\n\n");
    append_section(out, "### Changes:\n", &entry.changes, "- ", "\n");
    append_section(out, "### Modified Files:\n", &entry.files_modified, "- `", "`\n");
    let rest = unmodified_files(entry);
    append_section(out, "### Checked Files (no changes):\n", &rest, "- `", "`\n");
    proof {
        assert(entry@.changes.len() == entry.changes@.len());
        assert(entry@.files_modified.len() == entry.files_modified@.len());
        assert(out@ =~= old(out)@ + render_entry(entry@));
    }
}

impl Changelog {
    /// The changelog text of the run, headed by the time `timestamp` at
    /// which it ended.
    pub fn render(&self, timestamp: &str) -> (out: String)
        ensures
            out@ == rendered(self@, timestamp@),
    {
        let mut out = String::from_str("# Pre-commit Changes ");
        out.append(timestamp);
        out.append("\n\n");
        let ghost head = out@;
        let ghost all = self@.entries;
        let mut i: usize = 0;
        proof {
            assert(all.take(0) =~= Seq::<(Seq<char>, EntryView)>::empty());
            assert(out@ =~= head + render_entries(all.take(0)));
        }
        while i < self.entries.len()
            invariant
                i <= self.entries@.len(),
                all == self@.entries,
                all == self.entries.deep_view(),
                out@ == head + render_entries(all.take(i as int)),
            decreases self.entries@.len() - i,
        {
            let ghost before = out@;
            append_entry(&mut out, &self.entries[i].1);
            proof {
                assert(all.take(i + 1).drop_last() =~= all.take(i as int));
                assert(all.take(i + 1).last().1 == self.entries@[i as int].1@);
                assert(out@ =~= head + render_entries(all.take(i + 1)));
            }
            i = i + 1;
        }
        proof {
            assert(all.take(i as int) =~= all);
        }
        out
    }

    /// What to write to the changelog file at the end of a run, `existing`
    /// being what the file holds now (empty where there is none): nothing
    /// where the run recorded no change, else the text of the run followed
    /// by the existing content.
    pub fn write_if_changed(&self, timestamp: &str, existing: &str) -> (out: Option<String>)
        ensures
            out.deep_view() == if self@.has_changes {
                Some(merged(rendered(self@, timestamp@), existing@))
            } else {
                None
            },
    {
        if !self.has_changes {
            return None;
        }
        let mut out = self.render(timestamp);
        if !existing.is_empty() {
            out.append("\n---\n\n");
            out.append(existing);
        }
        Some(out)
    }
}

} // verus!
