//! The decisions of the UWP fixes: whether Roblox is the active window,
//! whether the mouse is clipped to it, which Roblox processes the task list
//! shows, and which of them are duplicate instances to close.
use crate::number::{parse_usize_range, spec_parse_usize};
use crate::text::{
    chars_of, contains_in, contains_seq, range_equals, split_pieces, split_ranges, word_ranges, words,
};
use vstd::prelude::*;

verus! {

/// A rectangle on the screen, by its edges.
#[derive(Clone, Copy, Debug, PartialEq, Eq, Structural)]
pub struct Rect {
    pub left: i32,
    pub top: i32,
    pub right: i32,
    pub bottom: i32,
}

/// Checks if Roblox is active: the active window's text is `Roblox`.
pub fn is_roblox_active(window_text: &str) -> (r: bool)
    ensures
        r == (window_text@ == "Roblox"@),
{
    let v = chars_of(window_text);
    let w = chars_of("Roblox");
    assert(v@.subrange(0, v@.len() as int) =~= v@);
    range_equals(&v, 0, v.len(), &w)
}

/// Check if the mouse is clipped to the window, given the window's bounds
/// and the current clip (`None` when either could not be read).
pub fn is_clipped(clip: Option<(Rect, Rect)>) -> (r: bool)
    ensures
        r == match clip {
            Some((window, current)) => window == current,
            None => false,
        },
{
    match clip {
        Some((window, current)) => window == current,
        None => false,
    }
}

/// The rectangle to confine the mouse to, given the window's bounds and
/// the current clip: the window, unless the clip is already the window or
/// could not be read.
pub fn clip_target(clip: Option<(Rect, Rect)>) -> (r: Option<Rect>)
    ensures
        r == match clip {
            Some((window, current)) => if window == current {
                None
            } else {
                Some(window)
            },
            None => None,
        },
{
    match clip {
        Some((window, current)) => if window == current {
            None
        } else {
            Some(window)
        },
        None => None,
    }
}

/// What the shift lock key does to the mouse.
#[derive(Clone, Copy, Debug, PartialEq, Eq, Structural)]
pub enum ClipToggle {
    /// Confine the mouse to the window.
    Clip,
    /// Release the mouse from the window.
    Unclip,
}

/// The shift lock toggle, given the window's bounds and the current clip:
/// release the mouse when it is clipped to the window, confine it otherwise.
pub fn shift_lock_toggle(clip: Option<(Rect, Rect)>) -> (r: ClipToggle)
    ensures
        r == if match clip {
            Some((window, current)) => window == current,
            None => false,
        } {
            ClipToggle::Unclip
        } else {
            ClipToggle::Clip
        },
{
    if is_clipped(clip) {
        ClipToggle::Unclip
    } else {
        ClipToggle::Clip
    }
}

/// A Roblox process as the task list shows it.
pub struct TaskListEntry {
    /// The name of the process.
    pub name: String,
    /// The PID of the process.
    pub pid: usize,
    /// The package name of the process.
    pub package_name: String,
}

/// A `TaskListEntry` with its texts as characters.
pub struct TaskListEntryView {
    pub name: Seq<char>,
    pub pid: usize,
    pub package_name: Seq<char>,
}

impl View for TaskListEntry {
    type V = TaskListEntryView;

    open spec fn view(&self) -> TaskListEntryView {
        TaskListEntryView { name: self.name@, pid: self.pid, package_name: self.package_name@ }
    }
}

impl Clone for TaskListEntry {
    fn clone(&self) -> (r: Self)
        ensures
            r@ == self@,
    {
        TaskListEntry { name: self.name.clone(), pid: self.pid, package_name: self.package_name.clone() }
    }
}

/// The views of a list of entries.
pub open spec fn entry_views(s: Seq<TaskListEntry>) -> Seq<TaskListEntryView> {
    s.map_values(|e: TaskListEntry| e@)
}

/// The package marker of Roblox.
pub open spec fn roblox_marker() -> Seq<char> {
    "ROBLOXCORPORATION"@
}

/// The process name that Roblox's store packages run as.
pub open spec fn runtime_broker() -> Seq<char> {
    "RuntimeBroker.exe"@
}

/// The entry that one line of the task list gives: its first word is the
/// process name, its third the PID, its sixth the package name; kept only
/// for `RuntimeBroker.exe` processes of a Roblox package.
pub open spec fn spec_entry_of_line(line: Seq<char>) -> Option<TaskListEntryView> {
    let w = words(line);
    if w.len() >= 6 && spec_parse_usize(w[2]) is Some && contains_seq(w[5], roblox_marker())
        && w[0] == runtime_broker() {
        Some(TaskListEntryView { name: w[0], pid: spec_parse_usize(w[2])->0, package_name: w[5] })
    } else {
        None
    }
}

/// The entries of the lines, in order.
pub open spec fn spec_entries(lines: Seq<Seq<char>>) -> Seq<TaskListEntryView>
    decreases lines.len(),
{
    if lines.len() == 0 {
        Seq::empty()
    } else {
        let init = spec_entries(lines.drop_last());
        match spec_entry_of_line(lines.last()) {
            Some(e) => init.push(e),
            None => init,
        }
    }
}

/// The Roblox processes of a `tasklist /apps` output, line by line.
pub open spec fn spec_rbx_processes(output: Seq<char>) -> Seq<TaskListEntryView> {
    spec_entries(split_pieces(output, '\n'))
}

/// The entry of the line `v[a..b]` of `s`.
fn entry_of_line(s: &str, v: &Vec<char>, a: usize, b: usize, marker: &Vec<char>, broker: &Vec<char>) -> (r: Option<TaskListEntry>)
    requires
        a <= b <= v.len(),
        v@ == s@,
        marker@ == roblox_marker(),
        broker@ == runtime_broker(),
    ensures
        match r {
            Some(e) => spec_entry_of_line(v@.subrange(a as int, b as int)) == Some(e@),
            None => spec_entry_of_line(v@.subrange(a as int, b as int)) is None,
        },
{
    let w = word_ranges(v, a, b);
    if w.len() < 6 {
        return None;
    }
    let (p0, p1) = w[2];
    let (k0, k1) = w[5];
    let (n0, n1) = w[0];
    let pid = match parse_usize_range(v, p0, p1) {
        Some(pid) => pid,
        None => return None,
    };
    if !contains_in(v, k0, k1, marker) {
        return None;
    }
    if !range_equals(v, n0, n1, broker) {
        return None;
    }
    let name = s.substring_char(n0, n1).to_owned();
    let package_name = s.substring_char(k0, k1).to_owned();
    Some(TaskListEntry { name, pid, package_name })
}

/// Grabs the Roblox store apps from the output of `tasklist /apps`: the
/// `RuntimeBroker.exe` processes of `ROBLOXCORPORATION` packages, one per
/// line that names one. Blank lines, and whitespace around the output or
/// its lines (`\r` included), give no entry and change no line's words.
/// PIDs are read as `usize`, as `sysinfo` reads a `Pid` on Windows.
pub fn rbx_processes_from_tasklist(output: &str) -> (r: Vec<TaskListEntry>)
    ensures
        entry_views(r@) == spec_rbx_processes(output@),
{
    let v = chars_of(output);
    let lines = split_ranges(&v, '\n');
    let ghost pieces = split_pieces(v@, '\n');
    let marker = chars_of("ROBLOXCORPORATION");
    let broker = chars_of("RuntimeBroker.exe");
    let mut out: Vec<TaskListEntry> = Vec::new();
    let mut i: usize = 0;
    while i < lines.len()
        invariant
            i <= lines.len(),
            v@ == output@,
            marker@ == roblox_marker(),
            broker@ == runtime_broker(),
            crate::text::ranges_hold(v@, lines@, pieces),
            entry_views(out@) == spec_entries(pieces.take(i as int)),
        decreases lines.len() - i,
    {
        let (a, b) = lines[i];
        assert(pieces.take(i + 1).drop_last() =~= pieces.take(i as int));
        assert(pieces.take(i + 1).last() == pieces[i as int]);
        assert(v@.subrange(a as int, b as int) == pieces[i as int]);
        match entry_of_line(output, &v, a, b, &marker, &broker) {
            Some(e) => {
                let ghost prev = out@;
                let ghost ev = e@;
                out.push(e);
                assert(entry_views(out@) =~= entry_views(prev).push(ev));
            },
            None => {},
        }
        i = i + 1;
    }
    assert(pieces.take(lines.len() as int) =~= pieces);
    out
}

impl PartialEq for TaskListEntry {
    /// Two entries are the same process when their PIDs are equal.
    fn eq(&self, other: &Self) -> (r: bool) {
        self.pid == other.pid
    }
}

impl vstd::std_specs::cmp::PartialEqSpecImpl for TaskListEntry {
    open spec fn obeys_eq_spec() -> bool {
        true
    }

    open spec fn eq_spec(&self, other: &Self) -> bool {
        self.pid == other.pid
    }
}

/// Some entry of `s` has the PID `pid`.
pub open spec fn has_pid(s: Seq<TaskListEntryView>, pid: usize) -> bool {
    exists|j: int| 0 <= j < s.len() && #[trigger] s[j].pid == pid
}

/// Not a process of `old`.
pub open spec fn not_in(old: Seq<TaskListEntryView>) -> spec_fn(TaskListEntryView) -> bool {
    |x: TaskListEntryView| !has_pid(old, x.pid)
}

/// The processes that changed since the last look: those of `current` that
/// `old` does not have, or all of `old` again when `current` is empty.
pub open spec fn spec_changed(current: Seq<TaskListEntryView>, old: Seq<TaskListEntryView>) -> Seq<TaskListEntryView> {
    if current.len() == 0 {
        old
    } else {
        current.filter(not_in(old))
    }
}

/// Of the package `pkg`.
pub open spec fn of_package(pkg: Seq<char>) -> spec_fn(TaskListEntryView) -> bool {
    |y: TaskListEntryView| y.package_name == pkg
}

/// How many entries of `s` belong to the package `pkg`.
pub open spec fn package_count(s: Seq<TaskListEntryView>, pkg: Seq<char>) -> nat {
    s.filter(of_package(pkg)).len()
}

/// Shares its package with another entry of `s`.
pub open spec fn shares_package(s: Seq<TaskListEntryView>) -> spec_fn(TaskListEntryView) -> bool {
    |x: TaskListEntryView| package_count(s, x.package_name) > 1
}

/// The entries of `s` whose package has more than one entry in `s`.
pub open spec fn spec_duplicates(s: Seq<TaskListEntryView>) -> Seq<TaskListEntryView> {
    s.filter(shares_package(s))
}

/// The duplicate instances to close: of the changed processes, those that
/// share their package with another changed process.
pub open spec fn spec_select_duplicates(current: Seq<TaskListEntryView>, old: Seq<TaskListEntryView>) -> Seq<TaskListEntryView> {
    spec_duplicates(spec_changed(current, old))
}

/// Whether some entry of `list` is the process `pid`.
fn list_has_pid(list: &Vec<TaskListEntry>, pid: usize) -> (r: bool)
    ensures
        r == has_pid(entry_views(list@), pid),
{
    let ghost views = entry_views(list@);
    let mut j: usize = 0;
    while j < list.len()
        invariant
            j <= list.len(),
            views == entry_views(list@),
            forall|m: int| 0 <= m < j ==> views[m].pid != pid,
        decreases list.len() - j,
    {
        if list[j].pid == pid {
            assert(views[j as int].pid == pid);
            return true;
        }
        j = j + 1;
    }
    false
}

/// How many entries of `list` belong to the package `pkg`.
fn list_package_count(list: &Vec<TaskListEntry>, pkg: &String) -> (r: usize)
    ensures
        r == package_count(entry_views(list@), pkg@),
{
    let ghost views = entry_views(list@);
    let mut n: usize = 0;
    let mut j: usize = 0;
    while j < list.len()
        invariant
            j <= list.len(),
            views == entry_views(list@),
            n == views.take(j as int).filter(of_package(pkg@)).len(),
            n <= j,
        decreases list.len() - j,
    {
        proof {
            reveal(Seq::filter);
        }
        assert(views.take(j + 1).drop_last() =~= views.take(j as int));
        if list[j].package_name == *pkg {
            n = n + 1;
        }
        j = j + 1;
    }
    assert(views.take(list.len() as int) =~= views);
    n
}

/// A copy of every entry of `list`.
fn clone_all(list: &Vec<TaskListEntry>) -> (r: Vec<TaskListEntry>)
    ensures
        entry_views(r@) == entry_views(list@),
{
    let mut out: Vec<TaskListEntry> = Vec::new();
    let mut j: usize = 0;
    while j < list.len()
        invariant
            j <= list.len(),
            entry_views(out@) == entry_views(list@).take(j as int),
        decreases list.len() - j,
    {
        let ghost prev = out@;
        let e = list[j].clone();
        assert(e@ == entry_views(list@)[j as int]);
        let ghost ev = e@;
        out.push(e);
        assert(entry_views(out@) =~= entry_views(prev).push(ev));
        assert(entry_views(out@) =~= entry_views(list@).take(j + 1));
        j = j + 1;
    }
    assert(entry_views(list@).take(list.len() as int) =~= entry_views(list@));
    out
}

/// The processes that changed since the last look.
fn changed_processes(current: &Vec<TaskListEntry>, old: &Vec<TaskListEntry>) -> (r: Vec<TaskListEntry>)
    ensures
        entry_views(r@) == spec_changed(entry_views(current@), entry_views(old@)),
{
    if current.len() == 0 {
        return clone_all(old);
    }
    let ghost views = entry_views(current@);
    let ghost olds = entry_views(old@);
    let mut out: Vec<TaskListEntry> = Vec::new();
    let mut j: usize = 0;
    while j < current.len()
        invariant
            j <= current.len(),
            views == entry_views(current@),
            olds == entry_views(old@),
            entry_views(out@) == views.take(j as int).filter(not_in(olds)),
        decreases current.len() - j,
    {
        proof {
            reveal(Seq::filter);
        }
        assert(views.take(j + 1).drop_last() =~= views.take(j as int));
        if !list_has_pid(old, current[j].pid) {
            let ghost prev = out@;
            let e = current[j].clone();
            out.push(e);
            assert(entry_views(out@) =~= entry_views(prev).push(views[j as int]));
        }
        j = j + 1;
    }
    assert(views.take(current.len() as int) =~= views);
    out
}

/// The entries of `list` that share their package with another entry.
fn duplicates_of(list: &Vec<TaskListEntry>) -> (r: Vec<TaskListEntry>)
    ensures
        entry_views(r@) == spec_duplicates(entry_views(list@)),
{
    let ghost views = entry_views(list@);
    let mut out: Vec<TaskListEntry> = Vec::new();
    let mut j: usize = 0;
    while j < list.len()
        invariant
            j <= list.len(),
            views == entry_views(list@),
            entry_views(out@) == views.take(j as int).filter(shares_package(views)),
        decreases list.len() - j,
    {
        proof {
            reveal(Seq::filter);
        }
        assert(views.take(j + 1).drop_last() =~= views.take(j as int));
        if list_package_count(list, &list[j].package_name) > 1 {
            let ghost prev = out@;
            let e = list[j].clone();
            out.push(e);
            assert(entry_views(out@) =~= entry_views(prev).push(views[j as int]));
        }
        j = j + 1;
    }
    assert(views.take(list.len() as int) =~= views);
    out
}

/// Removes duplicate Roblox instances (the decision): given the Roblox
/// processes seen now and those seen on the last look, the processes to
/// close. Usually occurs when teleporting to a new place.
pub fn select_duplicates(current: &Vec<TaskListEntry>, old: &Vec<TaskListEntry>) -> (r: Vec<TaskListEntry>)
    ensures
        entry_views(r@) == spec_select_duplicates(entry_views(current@), entry_views(old@)),
{
    let changed = changed_processes(current, old);
    duplicates_of(&changed)
}

/// Filtering by a weaker predicate first changes nothing: when `p` implies
/// `q`, keeping `q` then `p` keeps what `p` keeps.
proof fn lemma_filter_weaker_first<A>(s: Seq<A>, q: spec_fn(A) -> bool, p: spec_fn(A) -> bool)
    requires
        forall|x: A| #[trigger] p(x) ==> q(x),
    ensures
        s.filter(q).filter(p) == s.filter(p),
    decreases s.len(),
{
    reveal(Seq::filter);
    if s.len() > 0 {
        lemma_filter_weaker_first(s.drop_last(), q, p);
        let sq = s.drop_last().filter(q);
        if q(s.last()) {
            assert(s.filter(q) == sq.push(s.last()));
            assert(s.filter(q).drop_last() =~= sq);
            assert(s.filter(q).last() == s.last());
        } else {
            assert(s.filter(q) == sq);
        }
    }
}

/// Every process picked as a duplicate shares its package with another
/// picked process: the list handed over for closing holds each package it
/// names at least twice.
pub proof fn lemma_duplicates_come_in_pairs(s: Seq<TaskListEntryView>, i: int)
    requires
        0 <= i < spec_duplicates(s).len(),
    ensures
        package_count(spec_duplicates(s), spec_duplicates(s)[i].package_name) > 1,
{
    let d = spec_duplicates(s);
    let pkg = d[i].package_name;
    broadcast use Seq::lemma_filter_pred;
    assert(shares_package(s)(d[i]));
    assert(package_count(s, pkg) > 1);
    assert forall|x: TaskListEntryView| #[trigger] of_package(pkg)(x) implies shares_package(s)(x) by {
        assert(x.package_name == pkg);
    }
    lemma_filter_weaker_first(s, shares_package(s), of_package(pkg));
}

/// When processes are seen now, none picked for closing is one that was
/// already seen on the last look.
pub proof fn lemma_picked_are_new(current: Seq<TaskListEntryView>, old: Seq<TaskListEntryView>, i: int)
    requires
        current.len() > 0,
        0 <= i < spec_select_duplicates(current, old).len(),
    ensures
        !has_pid(old, spec_select_duplicates(current, old)[i].pid),
{
    let changed = spec_changed(current, old);
    let picked = spec_select_duplicates(current, old);
    broadcast use Seq::lemma_filter_pred;
    assert(picked.contains(picked[i]));
    changed.lemma_filter_contains_rev(shares_package(changed), picked[i]);
    let k = choose|k: int| 0 <= k < changed.len() && changed[k] == picked[i];
    assert(not_in(old)(changed[k]));
}

/// Every process read from the task list is a `RuntimeBroker.exe` of a
/// Roblox package.
pub proof fn lemma_listed_are_roblox_brokers(lines: Seq<Seq<char>>, i: int)
    requires
        0 <= i < spec_entries(lines).len(),
    ensures
        spec_entries(lines)[i].name == runtime_broker(),
        contains_seq(spec_entries(lines)[i].package_name, roblox_marker()),
    decreases lines.len(),
{
    let init = spec_entries(lines.drop_last());
    if i < init.len() {
        lemma_listed_are_roblox_brokers(lines.drop_last(), i);
    }
}

/// The pick is exactly the changed processes whose package has at least
/// two changed processes: each such process is picked, and each picked
/// process is one of them.
pub proof fn lemma_pick_is_shared_packages(current: Seq<TaskListEntryView>, old: Seq<TaskListEntryView>)
    ensures
        forall|i: int|
            0 <= i < spec_changed(current, old).len() && package_count(
                spec_changed(current, old),
                spec_changed(current, old)[i].package_name,
            ) > 1 ==> #[trigger] spec_select_duplicates(current, old).contains(spec_changed(current, old)[i]),
        forall|i: int|
            0 <= i < spec_select_duplicates(current, old).len() ==> spec_changed(current, old).contains(
                #[trigger] spec_select_duplicates(current, old)[i],
            ) && package_count(spec_changed(current, old), spec_select_duplicates(current, old)[i].package_name)
                > 1,
{
    let changed = spec_changed(current, old);
    let picked = spec_select_duplicates(current, old);
    assert forall|i: int|
        0 <= i < changed.len() && package_count(changed, changed[i].package_name) > 1 implies #[trigger] picked.contains(
        changed[i],
    ) by {
        assert(shares_package(changed)(changed[i]));
        changed.lemma_filter_contains(shares_package(changed), i);
    }
    assert forall|i: int| 0 <= i < picked.len() implies changed.contains(#[trigger] picked[i])
        && package_count(changed, picked[i].package_name) > 1 by {
        changed.lemma_filter_pred(shares_package(changed), i);
        assert(picked.contains(picked[i]));
        changed.lemma_filter_contains_rev(shares_package(changed), picked[i]);
    }
}

/// The changed processes: when processes are seen now, exactly those seen
/// now whose PID was not seen on the last look; when none are seen now, the
/// processes of the last look.
pub proof fn lemma_changed_members(current: Seq<TaskListEntryView>, old: Seq<TaskListEntryView>)
    ensures
        current.len() == 0 ==> spec_changed(current, old) == old,
        current.len() > 0 ==> forall|i: int|
            0 <= i < current.len() && !has_pid(old, current[i].pid) ==> #[trigger] spec_changed(
                current,
                old,
            ).contains(current[i]),
        current.len() > 0 ==> forall|i: int|
            0 <= i < spec_changed(current, old).len() ==> current.contains(#[trigger] spec_changed(current, old)[i])
                && !has_pid(old, spec_changed(current, old)[i].pid),
{
    if current.len() > 0 {
        let changed = spec_changed(current, old);
        assert forall|i: int| 0 <= i < current.len() && !has_pid(old, current[i].pid) implies #[trigger] changed.contains(
            current[i],
        ) by {
            assert(not_in(old)(current[i]));
            current.lemma_filter_contains(not_in(old), i);
        }
        assert forall|i: int| 0 <= i < changed.len() implies current.contains(#[trigger] changed[i])
            && !has_pid(old, changed[i].pid) by {
            current.lemma_filter_pred(not_in(old), i);
            assert(changed.contains(changed[i]));
            current.lemma_filter_contains_rev(not_in(old), changed[i]);
        }
    }
}

/// Each line of the output that names a Roblox broker gives its own entry,
/// in line order, whatever the earlier lines gave: appending such a line
/// to an output appends its entry to the result, and appending any other
/// line leaves the result as it was.
pub proof fn lemma_each_line_gives_its_entry(output: Seq<char>, line: Seq<char>)
    requires
        !line.contains('\n'),
    ensures
        spec_entry_of_line(line) matches Some(e) ==> spec_rbx_processes(output.push('\n') + line)
            == spec_rbx_processes(output).push(e),
        spec_entry_of_line(line) is None ==> spec_rbx_processes(output.push('\n') + line) == spec_rbx_processes(
            output,
        ),
        spec_rbx_processes(output.push('\n') + line).len() == spec_rbx_processes(output).len() + if spec_entry_of_line(
            line,
        ) is Some {
            1int
        } else {
            0int
        },
{
    crate::text::lemma_split_pieces_concat(output, line, '\n');
    crate::text::lemma_split_state_no_sep(line, '\n');
    let pieces = split_pieces(output, '\n');
    assert(split_pieces(line, '\n') =~= seq![line]);
    let all = pieces + seq![line];
    assert(all.drop_last() =~= pieces);
    assert(all.last() == line);
}

} // verus!
