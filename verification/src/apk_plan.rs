//! Which native libraries an application package holds, and what keeps each
//! from running.

use crate::elf_probe::{probe_arm_elf_bytes, probe_of, ElfProbe, ProbeView};
use crate::order::{before, before_is_total, before_is_transitive, by_name, comes_before, place};
use crate::paths::{path_of, path_text, show_path};
use crate::strings::{chars_of, find_char, first_char, same_text, stands_at, text_stands_at, texts};
use crate::text::join;
use crate::zip_probe::{
    data_of, entries_of, entry_views, extract_parsed_zip_entry, parse_zip_entries, ZipCompression,
    ZipEntry, ZipEntryView, ZipProbeError, ZipProbeErrorView,
};
use std::path::PathBuf;
use vstd::prelude::*;
use vstd::string::{StrSliceExecFns, StringExecFns};

verus! {

/// The application binary interface that can be run.
pub const ARMV7A_TARGET_ABI: &'static str = "armeabi-v7a";

/// What an application package needs to run.
#[derive(Debug, Clone, PartialEq, Eq)]
pub struct ApkRunPlan {
    pub path: PathBuf,
    pub native_libraries: Vec<NativeLibraryPlan>,
}

/// A native library of an application package.
#[derive(Debug, Clone, PartialEq, Eq)]
pub struct NativeLibraryPlan {
    pub entry_name: String,
    pub abi: String,
    pub library_name: String,
    pub compression: ZipCompression,
    pub compressed_size: u64,
    pub uncompressed_size: u64,
    pub probe: Option<ElfProbe>,
    pub probe_error: Option<String>,
    pub armv7a_blockers: Vec<Armv7aBlocker>,
}

/// What keeps a library from running.
#[derive(Debug, Clone, PartialEq, Eq)]
pub enum Armv7aBlocker {
    NotTargetAbi(String),
    ProbeFailed(String),
    NotArmElf(String),
}

/// Why an application package cannot be planned.
#[derive(Debug, Clone, PartialEq, Eq)]
pub enum ApkPlanError {
    Io(String),
    Zip(ZipProbeError),
}

/// An [`Armv7aBlocker`] as a mathematical value.
pub enum BlockerView {
    NotTargetAbi(Seq<char>),
    ProbeFailed(Seq<char>),
    NotArmElf(Seq<char>),
}

impl View for Armv7aBlocker {
    type V = BlockerView;

    open spec fn view(&self) -> BlockerView {
        match self {
            Armv7aBlocker::NotTargetAbi(abi) => BlockerView::NotTargetAbi(abi@),
            Armv7aBlocker::ProbeFailed(err) => BlockerView::ProbeFailed(err@),
            Armv7aBlocker::NotArmElf(machine) => BlockerView::NotArmElf(machine@),
        }
    }
}

impl BlockerView {
    /// The message for this blocker.
    pub open spec fn text(self) -> Seq<char> {
        match self {
            BlockerView::NotTargetAbi(abi) => "ABI "@ + abi + " is not "@ + ARMV7A_TARGET_ABI@,
            BlockerView::ProbeFailed(err) => "ELF probe failed: "@ + err,
            BlockerView::NotArmElf(machine) => "ELF machine is "@ + machine + ", not ARM"@,
        }
    }
}

impl Armv7aBlocker {
    /// The message for this blocker.
    pub fn to_string(&self) -> (r: String)
        ensures
            r@ == self@.text(),
    {
        match self {
            Armv7aBlocker::NotTargetAbi(abi) => join(
                join(join("ABI ", abi.as_str()).as_str(), " is not ").as_str(),
                ARMV7A_TARGET_ABI,
            ),
            Armv7aBlocker::ProbeFailed(err) => join("ELF probe failed: ", err.as_str()),
            Armv7aBlocker::NotArmElf(machine) => join(
                join("ELF machine is ", machine.as_str()).as_str(),
                ", not ARM",
            ),
        }
    }
}

/// An [`ApkPlanError`] as a mathematical value.
pub enum ApkPlanErrorView {
    Io(Seq<char>),
    Zip(ZipProbeErrorView),
}

impl View for ApkPlanError {
    type V = ApkPlanErrorView;

    open spec fn view(&self) -> ApkPlanErrorView {
        match self {
            ApkPlanError::Io(err) => ApkPlanErrorView::Io(err@),
            ApkPlanError::Zip(err) => ApkPlanErrorView::Zip(err@),
        }
    }
}

impl ApkPlanErrorView {
    /// The message for this error.
    pub open spec fn text(self) -> Seq<char> {
        match self {
            ApkPlanErrorView::Io(err) => err,
            ApkPlanErrorView::Zip(err) => err.text(),
        }
    }
}

impl ApkPlanError {
    /// The message for this error.
    pub fn to_string(&self) -> (r: String)
        ensures
            r@ == self@.text(),
    {
        match self {
            ApkPlanError::Io(err) => err.clone(),
            ApkPlanError::Zip(err) => err.to_string(),
        }
    }
}

/// The views of a list of blockers.
pub open spec fn blocker_views(v: Seq<Armv7aBlocker>) -> Seq<BlockerView> {
    v.map_values(|b: Armv7aBlocker| b@)
}

/// A [`NativeLibraryPlan`] as a mathematical value.
pub struct LibraryView {
    pub entry_name: Seq<char>,
    pub abi: Seq<char>,
    pub library_name: Seq<char>,
    pub compression: ZipCompression,
    pub compressed_size: u64,
    pub uncompressed_size: u64,
    /// The path of what was probed, and what was found.
    pub probe: Option<(Seq<char>, ProbeView)>,
    pub probe_error: Option<Seq<char>>,
    pub armv7a_blockers: Seq<BlockerView>,
}

impl View for NativeLibraryPlan {
    type V = LibraryView;

    open spec fn view(&self) -> LibraryView {
        LibraryView {
            entry_name: self.entry_name@,
            abi: self.abi@,
            library_name: self.library_name@,
            compression: self.compression,
            compressed_size: self.compressed_size,
            uncompressed_size: self.uncompressed_size,
            probe: match self.probe {
                Some(probe) => Some((path_text(probe.path), probe@)),
                None => None,
            },
            probe_error: match self.probe_error {
                Some(err) => Some(err@),
                None => None,
            },
            armv7a_blockers: blocker_views(self.armv7a_blockers@),
        }
    }
}

/// The views of a list of libraries.
pub open spec fn library_views(v: Seq<NativeLibraryPlan>) -> Seq<LibraryView> {
    v.map_values(|l: NativeLibraryPlan| l@)
}

impl LibraryView {
    /// Whether the library is for the interface that can be run.
    pub open spec fn is_target(self) -> bool {
        self.abi == ARMV7A_TARGET_ABI@
    }
}

/// How many of a list are `x`.
pub open spec fn count_of(list: Seq<Seq<char>>, x: Seq<char>) -> int
    decreases list.len(),
{
    if list.len() == 0 {
        0
    } else {
        count_of(list.drop_last(), x) + if list.last() == x {
            1int
        } else {
            0int
        }
    }
}

/// Texts with a comma and a space between them.
pub open spec fn joined(list: Seq<Seq<char>>) -> Seq<char>
    decreases list.len(),
{
    if list.len() == 0 {
        Seq::empty()
    } else if list.len() == 1 {
        list[0]
    } else {
        joined(list.drop_last()) + ", "@ + list.last()
    }
}

/// The messages of a list of blockers.
pub open spec fn blocker_texts(list: Seq<BlockerView>) -> Seq<Seq<char>> {
    list.map_values(|b: BlockerView| b.text())
}

/// The line of each library that something keeps from running.
pub open spec fn blocked_lines(libs: Seq<LibraryView>) -> Seq<Seq<char>>
    decreases libs.len(),
{
    if libs.len() == 0 {
        Seq::empty()
    } else {
        let lines = blocked_lines(libs.drop_last());
        let lib = libs.last();
        if lib.armv7a_blockers.len() == 0 {
            lines
        } else {
            lines.push(lib.entry_name + ": "@ + joined(blocker_texts(lib.armv7a_blockers)))
        }
    }
}

/// Whether a list has a library for the interface that can be run.
pub open spec fn any_target(libs: Seq<LibraryView>) -> bool {
    exists|i: int| 0 <= i < libs.len() && (#[trigger] libs[i]).is_target()
}

/// Whether the libraries of a package can be run: there is one for the right
/// interface, and nothing keeps any such library from running.
pub open spec fn runnable(libs: Seq<LibraryView>) -> bool {
    &&& any_target(libs)
    &&& forall|i: int|
        0 <= i < libs.len() && (#[trigger] libs[i]).is_target() ==> libs[i].armv7a_blockers.len()
            == 0
}

/// What keeps a package from running, line by line.
pub open spec fn summary(libs: Seq<LibraryView>) -> Seq<Seq<char>> {
    if libs.len() == 0 {
        seq!["no native libraries found; DEX-only APK execution is not implemented"@]
    } else if any_target(libs) {
        blocked_lines(libs)
    } else {
        seq!["missing lib/armeabi-v7a/*.so for the ARMv7-A interpreter target"@] + blocked_lines(
            libs,
        )
    }
}

/// The abi texts of a list of libraries.
pub open spec fn abis(libs: Seq<NativeLibraryPlan>) -> Seq<Seq<char>> {
    libs.map_values(|l: NativeLibraryPlan| l.abi@)
}

/// Whether `counts` holds the abis of a list, each once and in order, with how
/// often it occurs.
pub open spec fn counts_abis(counts: Seq<(String, usize)>, list: Seq<Seq<char>>) -> bool {
    &&& forall|i: int, j: int|
        #![trigger counts[i], counts[j]]
        0 <= i < j < counts.len() ==> before(counts[i].0@, counts[j].0@)
    &&& forall|i: int|
        0 <= i < counts.len() ==> (#[trigger] counts[i]).1 == count_of(list, counts[i].0@)
            && counts[i].1 > 0
    &&& forall|k: int|
        0 <= k < list.len() ==> exists|i: int|
            0 <= i < counts.len() && (#[trigger] counts[i]).0@ == #[trigger] list[k]
}

/// What occurs in a list is counted.
proof fn count_of_member(list: Seq<Seq<char>>, x: Seq<char>)
    ensures
        0 <= count_of(list, x) <= list.len(),
        count_of(list, x) > 0 <==> list.contains(x),
    decreases list.len(),
{
    if list.len() > 0 {
        let rest = list.drop_last();
        count_of_member(rest, x);
        if list.last() == x {
            assert(list[list.len() - 1] == x);
        }
        if rest.contains(x) {
            let i = rest.index_of(x);
            assert(list[i] == x);
        }
        if list.contains(x) && list.last() != x {
            let i = list.index_of(x);
            assert(rest[i] == x);
        }
    }
}

/// The sum of the counts.
pub open spec fn counted(counts: Seq<(String, usize)>) -> int
    decreases counts.len(),
{
    if counts.len() == 0 {
        0
    } else {
        counted(counts.drop_last()) + counts.last().1
    }
}

/// How often the names of some counts occur in a list, taken together.
spec fn occurrences(counts: Seq<(String, usize)>, list: Seq<Seq<char>>) -> int
    decreases counts.len(),
{
    if counts.len() == 0 {
        0
    } else {
        occurrences(counts.drop_last(), list) + count_of(list, counts.last().0@)
    }
}

/// Whether some counts name a text.
spec fn names(counts: Seq<(String, usize)>, x: Seq<char>) -> bool {
    exists|i: int| 0 <= i < counts.len() && (#[trigger] counts[i]).0@ == x
}

/// One more text in a list occurs once more where it is named, and nowhere else.
proof fn one_more_occurs(counts: Seq<(String, usize)>, list: Seq<Seq<char>>)
    requires
        list.len() > 0,
        forall|i: int, j: int|
            #![trigger counts[i], counts[j]]
            0 <= i < j < counts.len() ==> before(counts[i].0@, counts[j].0@),
    ensures
        occurrences(counts, list) == occurrences(counts, list.drop_last()) + if names(
            counts,
            list.last(),
        ) {
            1int
        } else {
            0int
        },
    decreases counts.len(),
{
    if counts.len() > 0 {
        let x = list.last();
        let rest = counts.drop_last();
        let n = counts.len() - 1;
        assert forall|i: int, j: int|
            #![trigger rest[i], rest[j]]
            0 <= i < j < rest.len() implies before(rest[i].0@, rest[j].0@) by {
            assert(counts[i] == rest[i] && counts[j] == rest[j]);
        }
        one_more_occurs(rest, list);
        if exists|i: int| 0 <= i < rest.len() && (#[trigger] rest[i]).0@ == x {
            let i = choose|i: int| 0 <= i < rest.len() && (#[trigger] rest[i]).0@ == x;
            assert(counts[i].0@ == x);
            assert(before(counts[i].0@, counts[n].0@));
            before_is_transitive(x, x, x);
        } else if counts[n].0@ != x {
            assert forall|i: int| 0 <= i < counts.len() implies (#[trigger] counts[i]).0@ != x by {
                if i < n {
                    assert(rest[i].0@ != x);
                }
            }
        }
    }
}

proof fn all_occur(counts: Seq<(String, usize)>, list: Seq<Seq<char>>)
    requires
        forall|i: int, j: int|
            #![trigger counts[i], counts[j]]
            0 <= i < j < counts.len() ==> before(counts[i].0@, counts[j].0@),
        forall|k: int| 0 <= k < list.len() ==> names(counts, #[trigger] list[k]),
    ensures
        occurrences(counts, list) == list.len(),
    decreases list.len(),
{
    if list.len() == 0 {
        none_occur(counts, list);
    } else {
        let rest = list.drop_last();
        assert forall|k: int| 0 <= k < rest.len() implies names(counts, #[trigger] rest[k]) by {
            assert(rest[k] == list[k]);
        }
        all_occur(counts, rest);
        one_more_occurs(counts, list);
        assert(list[list.len() - 1] == list.last());
    }
}

proof fn none_occur(counts: Seq<(String, usize)>, list: Seq<Seq<char>>)
    requires
        list.len() == 0,
    ensures
        occurrences(counts, list) == 0,
    decreases counts.len(),
{
    if counts.len() > 0 {
        none_occur(counts.drop_last(), list);
    }
}

proof fn counts_are_occurrences(counts: Seq<(String, usize)>, list: Seq<Seq<char>>)
    requires
        forall|i: int|
            0 <= i < counts.len() ==> (#[trigger] counts[i]).1 == count_of(list, counts[i].0@),
    ensures
        counted(counts) == occurrences(counts, list),
    decreases counts.len(),
{
    if counts.len() > 0 {
        let rest = counts.drop_last();
        assert forall|i: int| 0 <= i < rest.len() implies (#[trigger] rest[i]).1 == count_of(
            list,
            rest[i].0@,
        ) by {
            assert(rest[i] == counts[i]);
        }
        counts_are_occurrences(rest, list);
        assert(counts[counts.len() - 1] == counts.last());
    }
}

/// The counts of a list sum to its length.
pub proof fn counts_sum_to_the_whole(counts: Seq<(String, usize)>, list: Seq<Seq<char>>)
    requires
        counts_abis(counts, list),
    ensures
        counted(counts) == list.len(),
{
    counts_are_occurrences(counts, list);
    assert forall|k: int| 0 <= k < list.len() implies names(counts, #[trigger] list[k]) by {}
    all_occur(counts, list);
}

/// Finds the place of a name among counted names.
fn count_place(counts: &Vec<(String, usize)>, name: &str) -> (r: usize)
    ensures
        r <= counts@.len(),
        r < counts@.len() ==> !before(counts@[r as int].0@, name@),
        forall|k: int| 0 <= k < r ==> before(#[trigger] counts@[k].0@, name@),
{
    let mut i: usize = 0;
    while i < counts.len()
        invariant
            i <= counts@.len(),
            forall|k: int| 0 <= k < i ==> before(#[trigger] counts@[k].0@, name@),
        decreases counts@.len() - i,
    {
        if !comes_before(counts[i].0.as_str(), name) {
            return i;
        }
        i += 1;
    }
    i
}

/// Counts one more abi.
fn count_one(counts: &mut Vec<(String, usize)>, abi: &String, Ghost(list): Ghost<Seq<Seq<char>>>)
    requires
        counts_abis(old(counts)@, list),
        list.len() < usize::MAX,
    ensures
        counts_abis(final(counts)@, list.push(abi@)),
{
    let at = count_place(counts, abi.as_str());
    let ghost after = list.push(abi@);
    proof {
        assert(after.drop_last() =~= list);
        count_of_member(list, abi@);
        assert forall|x: Seq<char>| x != abi@ implies count_of(after, x) == count_of(list, x) by {}
        assert(count_of(after, abi@) == count_of(list, abi@) + 1);
    }
    if at < counts.len() && same_text(counts[at].0.as_str(), abi.as_str()) {
        let n = counts[at].1;
        proof {
            count_of_member(list, counts@[at as int].0@);
        }
        let name = counts[at].0.clone();
        counts.set(at, (name, n + 1));
        proof {
            let c = counts@;
            let o = old(counts)@;
            assert forall|i: int| 0 <= i < c.len() implies (#[trigger] c[i]).1 == count_of(
                after,
                c[i].0@,
            ) && c[i].1 > 0 by {
                if i != at {
                    assert(c[i] == o[i]);
                    if i < at {
                        before_is_transitive(o[i].0@, o[at as int].0@, o[i].0@);
                        assert(before(o[i].0@, o[at as int].0@));
                    } else {
                        assert(before(o[at as int].0@, o[i].0@));
                    }
                    before_is_transitive(o[i].0@, o[i].0@, o[i].0@);
                }
            }
            assert forall|k: int| 0 <= k < after.len() implies exists|i: int|
                0 <= i < c.len() && (#[trigger] c[i]).0@ == #[trigger] after[k] by {
                if k < list.len() {
                    assert(list[k] == after[k]);
                    let i = choose|i: int| 0 <= i < o.len() && (#[trigger] o[i]).0@ == list[k];
                    assert(c[i].0@ == after[k]);
                } else {
                    assert(c[at as int].0@ == after[k]);
                }
            }
        }
    } else {
        proof {
            if list.contains(abi@) {
                let k = list.index_of(abi@);
                let i = choose|i: int|
                    0 <= i < counts@.len() && (#[trigger] counts@[i]).0@ == list[k];
                before_is_transitive(abi@, abi@, abi@);
                assert(i >= at);
                if i > at {
                    assert(before(counts@[at as int].0@, counts@[i].0@));
                }
            }
        }
        counts.insert(at, (abi.clone(), 1));
        proof {
            let c = counts@;
            let o = old(counts)@;
            assert(c == o.insert(at as int, c[at as int]));
            assert forall|i: int| 0 <= i < o.len() implies o[i].0@ != abi@ by {
                if o[i].0@ == abi@ {
                    count_of_member(list, abi@);
                    assert(o[i].1 == count_of(list, o[i].0@));
                }
            }
            if at < o.len() {
                before_is_total(o[at as int].0@, abi@);
            }
            assert forall|i: int, j: int|
                #![trigger c[i], c[j]]
                0 <= i < j < c.len() implies before(c[i].0@, c[j].0@) by {
                let i0 = if i < at {
                    i
                } else {
                    i - 1
                };
                let j0 = if j < at {
                    j
                } else {
                    j - 1
                };
                if i == at {
                    assert(c[j] == o[j0]);
                    if j0 > at {
                        assert(before(o[at as int].0@, o[j0].0@));
                        before_is_transitive(abi@, o[at as int].0@, o[j0].0@);
                    }
                } else if j == at {
                    assert(c[i] == o[i0]);
                } else {
                    assert(c[i] == o[i0] && c[j] == o[j0]);
                }
            }
            assert forall|i: int| 0 <= i < c.len() implies (#[trigger] c[i]).1 == count_of(
                after,
                c[i].0@,
            ) && c[i].1 > 0 by {
                if i < at {
                    assert(c[i] == o[i]);
                } else if i > at {
                    assert(c[i] == o[i - 1]);
                }
            }
            assert forall|k: int| 0 <= k < after.len() implies exists|i: int|
                0 <= i < c.len() && (#[trigger] c[i]).0@ == #[trigger] after[k] by {
                if k < list.len() {
                    assert(list[k] == after[k]);
                    let i = choose|i: int| 0 <= i < o.len() && (#[trigger] o[i]).0@ == list[k];
                    if i < at {
                        assert(c[i].0@ == after[k]);
                    } else {
                        assert(c[i + 1].0@ == after[k]);
                    }
                } else {
                    assert(c[at as int].0@ == after[k]);
                }
            }
        }
    }
}

impl ApkRunPlan {
    /// What the package holds, by value.
    pub open spec fn libraries(&self) -> Seq<LibraryView> {
        library_views(self.native_libraries@)
    }

    /// How many libraries there are for each interface, in the order of their names.
    pub fn abi_counts(&self) -> (r: Vec<(String, usize)>)
        ensures
            counts_abis(r@, abis(self.native_libraries@)),
    {
        let mut counts: Vec<(String, usize)> = Vec::new();
        let mut idx: usize = 0;
        let total = self.native_libraries.len();
        while idx < total
            invariant
                total == self.native_libraries@.len(),
                idx <= self.native_libraries@.len() <= usize::MAX,
                counts_abis(counts@, abis(self.native_libraries@).take(idx as int)),
            decreases self.native_libraries@.len() - idx,
        {
            let ghost all = abis(self.native_libraries@);
            count_one(
                &mut counts,
                &self.native_libraries[idx].abi,
                Ghost(all.take(idx as int)),
            );
            assert(all.take(idx + 1) =~= all.take(idx as int).push(all[idx as int]));
            idx += 1;
        }
        assert(abis(self.native_libraries@).take(idx as int) =~= abis(self.native_libraries@));
        counts
    }

    /// Whether there is a library for the interface that can be run.
    pub fn has_target_abi(&self) -> (r: bool)
        ensures
            r == any_target(self.libraries()),
    {
        let mut idx: usize = 0;
        while idx < self.native_libraries.len()
            invariant
                idx <= self.native_libraries@.len(),
                forall|i: int| 0 <= i < idx ==> !(#[trigger] self.libraries()[i]).is_target(),
            decreases self.native_libraries@.len() - idx,
        {
            assert(self.libraries()[idx as int] == self.native_libraries@[idx as int]@);
            if same_text(self.native_libraries[idx].abi.as_str(), ARMV7A_TARGET_ABI) {
                return true;
            }
            idx += 1;
        }
        false
    }

    /// The libraries for the interface that can be run, in their order.
    pub fn target_libraries(&self) -> (r: Vec<&NativeLibraryPlan>)
        ensures
            r@.map_values(|l: &NativeLibraryPlan| *l) == self.native_libraries@.filter(
                |l: NativeLibraryPlan| l@.is_target(),
            ),
    {
        broadcast use vstd::seq_lib::group_filter_ensures;

        let ghost wanted = |l: NativeLibraryPlan| l@.is_target();
        let mut out: Vec<&NativeLibraryPlan> = Vec::new();
        let mut idx: usize = 0;
        proof {
            reveal(Seq::filter);
        }
        assert(out@.map_values(|l: &NativeLibraryPlan| *l) =~= self.native_libraries@.take(
            0,
        ).filter(wanted));
        while idx < self.native_libraries.len()
            invariant
                idx <= self.native_libraries@.len(),
                wanted == (|l: NativeLibraryPlan| l@.is_target()),
                out@.map_values(|l: &NativeLibraryPlan| *l) == self.native_libraries@.take(
                    idx as int,
                ).filter(wanted),
            decreases self.native_libraries@.len() - idx,
        {
            let library = &self.native_libraries[idx];
            proof {
                reveal(Seq::filter);
                let t = self.native_libraries@.take(idx + 1);
                assert(t.drop_last() =~= self.native_libraries@.take(idx as int));
                assert(t.last() == *library);
                assert(out@.push(library).map_values(|l: &NativeLibraryPlan| *l) =~= out@.map_values(
                    |l: &NativeLibraryPlan| *l,
                ).push(*library));
            }
            if same_text(library.abi.as_str(), ARMV7A_TARGET_ABI) {
                out.push(library);
            }
            idx += 1;
        }
        assert(self.native_libraries@.take(idx as int) =~= self.native_libraries@);
        out
    }

    /// Whether the package can be run.
    pub fn is_armv7a_runnable(&self) -> (r: bool)
        ensures
            r == runnable(self.libraries()),
    {
        if !self.has_target_abi() {
            return false;
        }
        let mut idx: usize = 0;
        while idx < self.native_libraries.len()
            invariant
                idx <= self.native_libraries@.len(),
                forall|i: int|
                    0 <= i < idx && (#[trigger] self.libraries()[i]).is_target()
                        ==> self.libraries()[i].armv7a_blockers.len() == 0,
            decreases self.native_libraries@.len() - idx,
        {
            assert(self.libraries()[idx as int] == self.native_libraries@[idx as int]@);
            if same_text(self.native_libraries[idx].abi.as_str(), ARMV7A_TARGET_ABI)
                && self.native_libraries[idx].armv7a_blockers.len() != 0 {
                return false;
            }
            idx += 1;
        }
        true
    }

    /// What keeps the package from running, line by line.
    pub fn summary_blockers(&self) -> (r: Vec<String>)
        ensures
            texts(r@) == summary(self.libraries()),
    {
        let mut blockers: Vec<String> = Vec::new();
        assert(texts(blockers@) =~= Seq::empty());
        if self.native_libraries.len() == 0 {
            blockers.push(
                String::from_str(
                    "no native libraries found; DEX-only APK execution is not implemented",
                ),
            );
            assert(texts(blockers@) =~= summary(self.libraries()));
            return blockers;
        }
        if !self.has_target_abi() {
            blockers.push(
                String::from_str("missing lib/armeabi-v7a/*.so for the ARMv7-A interpreter target"),
            );
        }
        let ghost head = texts(blockers@);
        let ghost all = self.libraries();
        let mut idx: usize = 0;
        assert(texts(blockers@) =~= head + blocked_lines(all.take(0)));
        while idx < self.native_libraries.len()
            invariant
                idx <= self.native_libraries@.len(),
                all == self.libraries(),
                texts(blockers@) == head + blocked_lines(all.take(idx as int)),
            decreases self.native_libraries@.len() - idx,
        {
            let library = &self.native_libraries[idx];
            assert(all.take(idx + 1).drop_last() =~= all.take(idx as int));
            assert(all.take(idx + 1).last() == library@);
            if library.armv7a_blockers.len() != 0 {
                let reasons = join_blockers(&library.armv7a_blockers);
                let line = join(
                    join(library.entry_name.as_str(), ": ").as_str(),
                    reasons.as_str(),
                );
                assert(texts(blockers@.push(line)) =~= texts(blockers@).push(line@));
                blockers.push(line);
                assert(texts(blockers@) =~= head + blocked_lines(all.take(idx + 1)));
            }
            idx += 1;
        }
        assert(all.take(idx as int) =~= all);
        assert(texts(blockers@) =~= summary(all));
        blockers
    }
}

/// The messages of some blockers, with commas between them.
fn join_blockers(list: &Vec<Armv7aBlocker>) -> (r: String)
    ensures
        r@ == joined(blocker_texts(blocker_views(list@))),
{
    let ghost all = blocker_texts(blocker_views(list@));
    let mut out = String::new();
    let mut idx: usize = 0;
    assert(out@ =~= joined(all.take(0)));
    while idx < list.len()
        invariant
            idx <= list@.len(),
            all == blocker_texts(blocker_views(list@)),
            out@ == joined(all.take(idx as int)),
        decreases list@.len() - idx,
    {
        assert(all.take(idx + 1).drop_last() =~= all.take(idx as int));
        assert(all.take(idx + 1).last() == list@[idx as int]@.text());
        let text = list[idx].to_string();
        if idx == 0 {
            out = text;
        } else {
            out = join(join(out.as_str(), ", ").as_str(), text.as_str());
        }
        idx += 1;
    }
    assert(all.take(idx as int) =~= all);
    out
}

/// A package whose libraries are all for the right interface runs exactly when
/// there is nothing to say against it.
pub proof fn target_packages_run_without_blockers(libs: Seq<LibraryView>)
    requires
        forall|i: int| 0 <= i < libs.len() ==> (#[trigger] libs[i]).is_target(),
    ensures
        runnable(libs) <==> summary(libs).len() == 0,
{
    blocked_lines_are_empty(libs);
    if libs.len() > 0 {
        assert(libs[0].is_target());
    }
}

/// There are no lines exactly when nothing keeps any library from running.
pub proof fn blocked_lines_are_empty(libs: Seq<LibraryView>)
    ensures
        blocked_lines(libs).len() == 0 <==> forall|i: int|
            0 <= i < libs.len() ==> (#[trigger] libs[i]).armv7a_blockers.len() == 0,
    decreases libs.len(),
{
    if libs.len() > 0 {
        let rest = libs.drop_last();
        blocked_lines_are_empty(rest);
        assert(libs[libs.len() - 1] == libs.last());
        assert forall|i: int| 0 <= i < rest.len() implies rest[i] == libs[i] by {}
        if blocked_lines(libs).len() == 0 {
            assert forall|i: int| 0 <= i < libs.len() implies (
            #[trigger] libs[i]).armv7a_blockers.len() == 0 by {
                if i < rest.len() {
                    assert(rest[i].armv7a_blockers.len() == 0);
                }
            }
        }
    }
}

/// What keeps a library from running.
pub open spec fn blockers_of(
    abi: Seq<char>,
    machine: Option<Seq<char>>,
    error: Option<Seq<char>>,
) -> Seq<BlockerView> {
    let first = if abi == ARMV7A_TARGET_ABI@ {
        Seq::empty()
    } else {
        seq![BlockerView::NotTargetAbi(abi)]
    };
    match machine {
        None => first.push(
            BlockerView::ProbeFailed(
                match error {
                    Some(err) => err,
                    None => "unknown error"@,
                },
            ),
        ),
        Some(machine) => if machine == "ARM"@ {
            first
        } else {
            first.push(BlockerView::NotArmElf(machine))
        },
    }
}

/// Finds what keeps a library from running.
pub fn classify_armv7a_library(
    abi: &str,
    probe: Option<&ElfProbe>,
    probe_error: Option<&str>,
) -> (r: Vec<Armv7aBlocker>)
    ensures
        blocker_views(r@) == blockers_of(
            abi@,
            match probe {
                Some(probe) => Some(probe.machine@),
                None => None,
            },
            match probe_error {
                Some(err) => Some(err@),
                None => None,
            },
        ),
{
    let mut blockers: Vec<Armv7aBlocker> = Vec::new();
    assert(blocker_views(blockers@) =~= Seq::empty());
    if !same_text(abi, ARMV7A_TARGET_ABI) {
        blockers.push(Armv7aBlocker::NotTargetAbi(String::from_str(abi)));
        assert(blocker_views(blockers@) =~= seq![BlockerView::NotTargetAbi(abi@)]);
    }
    let ghost first = blocker_views(blockers@);
    match probe {
        None => {
            let err = match probe_error {
                Some(err) => err,
                None => "unknown error",
            };
            blockers.push(Armv7aBlocker::ProbeFailed(String::from_str(err)));
            assert(blocker_views(blockers@) =~= first.push(BlockerView::ProbeFailed(err@)));
        },
        Some(probe) => if !same_text(probe.machine.as_str(), "ARM") {
            blockers.push(Armv7aBlocker::NotArmElf(probe.machine.clone()));
            assert(blocker_views(blockers@) =~= first.push(
                BlockerView::NotArmElf(probe.machine@),
            ));
        },
    }
    blockers
}

/// Whether an entry is a native library.
pub open spec fn is_library(name: Seq<char>) -> bool {
    stands_at(name, "lib/"@, 0) && stands_at(name, ".so"@, name.len() - 3)
}

/// The interface and the file name of a library: what stands before and behind
/// the first slash after `lib/`. Both are empty where there is none.
pub open spec fn library_parts(name: Seq<char>) -> (Seq<char>, Seq<char>) {
    let slash = first_char(name, '/', 4);
    if slash >= name.len() {
        (Seq::empty(), Seq::empty())
    } else {
        (name.subrange(4, slash), name.skip(slash + 1))
    }
}

/// The plan of one library, from its entry and its bytes.
pub open spec fn library_of(base: Seq<char>, entry: ZipEntryView, data: Seq<u8>) -> LibraryView {
    let (abi, library_name) = library_parts(entry.name);
    let probe = match probe_of(data) {
        Ok(probe) => Some((base + "!"@ + entry.name, probe)),
        Err(_) => None,
    };
    let probe_error = match probe_of(data) {
        Ok(_) => None,
        Err(e) => Some(e.text()),
    };
    LibraryView {
        entry_name: entry.name,
        abi,
        library_name,
        compression: entry.compression,
        compressed_size: entry.compressed_size,
        uncompressed_size: entry.uncompressed_size,
        probe,
        probe_error,
        armv7a_blockers: blockers_of(
            abi,
            match probe_of(data) {
                Ok(probe) => Some(probe.machine),
                Err(_) => None,
            },
            probe_error,
        ),
    }
}

/// `acc` and the libraries among the entries from `idx` on.
pub open spec fn libraries_from(
    b: Seq<u8>,
    base: Seq<char>,
    entries: Seq<ZipEntryView>,
    idx: int,
    acc: Seq<LibraryView>,
) -> core::result::Result<Seq<LibraryView>, ZipProbeErrorView>
    decreases entries.len() - idx,
{
    if idx >= entries.len() {
        Ok(acc)
    } else if !is_library(entries[idx].name) {
        libraries_from(b, base, entries, idx + 1, acc)
    } else {
        match data_of(b, entries[idx]) {
            Err(e) => Err(e),
            Ok(data) => libraries_from(
                b,
                base,
                entries,
                idx + 1,
                acc.push(library_of(base, entries[idx], data)),
            ),
        }
    }
}

/// The name that libraries are ordered by.
pub open spec fn library_key() -> spec_fn(LibraryView) -> Seq<char> {
    |l: LibraryView| l.entry_name
}

/// The libraries of a package, ordered by their entry names.
pub open spec fn plan_of(b: Seq<u8>, base: Seq<char>) -> core::result::Result<
    Seq<LibraryView>,
    ApkPlanErrorView,
> {
    match entries_of(b) {
        Err(e) => Err(ApkPlanErrorView::Zip(e)),
        Ok(entries) => match libraries_from(b, base, entries, 0, Seq::empty()) {
            Err(e) => Err(ApkPlanErrorView::Zip(e)),
            Ok(libs) => Ok(by_name(libs, library_key())),
        },
    }
}

fn is_native_library(name: &str) -> (r: bool)
    ensures
        r == is_library(name@),
{
    proof {
        reveal_strlit("lib/");
        reveal_strlit(".so");
    }
    let chars = chars_of(name);
    let prefix = chars_of("lib/");
    let suffix = chars_of(".so");
    if chars.len() < 3 {
        return false;
    }
    text_stands_at(chars.as_slice(), prefix.as_slice(), 0) && text_stands_at(
        chars.as_slice(),
        suffix.as_slice(),
        chars.len() - 3,
    )
}

/// The interface and the file name of a library.
fn native_library_parts(name: &str) -> (r: (String, String))
    requires
        is_library(name@),
    ensures
        (r.0@, r.1@) == library_parts(name@),
{
    proof {
        reveal_strlit("lib/");
    }
    let chars = chars_of(name);
    let slash = find_char(chars.as_slice(), '/', 4);
    if slash >= chars.len() {
        let none = (String::new(), String::new());
        assert(none.0@ =~= Seq::empty() && none.1@ =~= Seq::empty());
        return none;
    }
    let abi = String::from_str(name.substring_char(4, slash));
    let library_name = String::from_str(name.substring_char(slash + 1, chars.len()));
    assert(library_name@ =~= name@.skip(slash + 1));
    (abi, library_name)
}

/// Plans one library.
fn plan_library(path: &PathBuf, entry: &ZipEntry, data: &[u8]) -> (r: NativeLibraryPlan)
    requires
        is_library(entry.name@),
    ensures
        r@ == library_of(path_text(*path), entry@, data@),
{
    let (abi, library_name) = native_library_parts(entry.name.as_str());
    let shown = join(join(show_path(path).as_str(), "!").as_str(), entry.name.as_str());
    let (probe, probe_error) = match probe_arm_elf_bytes(path_of(shown), data) {
        Ok(probe) => (Some(probe), None),
        Err(err) => (None, Some(err.to_string())),
    };
    let armv7a_blockers = classify_armv7a_library(
        abi.as_str(),
        match &probe {
            Some(probe) => Some(probe),
            None => None,
        },
        match &probe_error {
            Some(err) => Some(err.as_str()),
            None => None,
        },
    );
    NativeLibraryPlan {
        entry_name: entry.name.clone(),
        abi,
        library_name,
        compression: entry.compression,
        compressed_size: entry.compressed_size,
        uncompressed_size: entry.uncompressed_size,
        probe,
        probe_error,
        armv7a_blockers,
    }
}

/// Finds the place of a name among ordered libraries.
fn library_place(libs: &Vec<NativeLibraryPlan>, name: &str) -> (r: usize)
    ensures
        r == place(library_views(libs@).map_values(library_key()), name@, 0),
        r <= libs@.len(),
{
    let ghost names = library_views(libs@).map_values(library_key());
    let mut i: usize = 0;
    while i < libs.len()
        invariant
            i <= libs@.len(),
            names == library_views(libs@).map_values(library_key()),
            place(names, name@, 0) == place(names, name@, i as int),
        decreases libs@.len() - i,
    {
        assert(names[i as int] == libs@[i as int].entry_name@);
        if !comes_before(libs[i].entry_name.as_str(), name) {
            return i;
        }
        i += 1;
    }
    i
}

/// Orders libraries by their entry names.
fn sort_libraries(libs: Vec<NativeLibraryPlan>) -> (r: Vec<NativeLibraryPlan>)
    ensures
        library_views(r@) == by_name(library_views(libs@), library_key()),
{
    let ghost all = library_views(libs@);
    let mut left = libs;
    let mut sorted: Vec<NativeLibraryPlan> = Vec::new();
    assert(library_views(sorted@) =~= by_name(all.skip(all.len() as int), library_key()));
    loop
        invariant
            all == library_views(libs@),
            left@.len() <= all.len(),
            library_views(left@) == all.take(left@.len() as int),
            library_views(sorted@) == by_name(all.skip(left@.len() as int), library_key()),
        decreases left@.len(),
    {
        let ghost before_pop = left@;
        match left.pop() {
            Some(lib) => {
                let ghost rest = library_views(sorted@);
                let at = library_place(&sorted, lib.entry_name.as_str());
                proof {
                    let n = left@.len() as int;
                    let from = all.skip(n);
                    assert(library_views(before_pop)[n] == lib@);
                    assert(all[n] == lib@);
                    assert(from[0] == lib@);
                    assert(from.drop_first() =~= all.skip(n + 1));
                    assert(library_views(left@) =~= all.take(n));
                    assert(library_views(sorted@.insert(at as int, lib)) =~= rest.insert(
                        at as int,
                        lib@,
                    ));
                }
                sorted.insert(at, lib);
            },
            None => {
                assert(all.skip(0) =~= all);
                return sorted;
            },
        }
    }
}

/// Plans the native libraries of an application package.
#[verifier::loop_isolation(false)]
pub fn analyze_apk_bytes(path: PathBuf, bytes: &[u8]) -> (r: Result<ApkRunPlan, ApkPlanError>)
    ensures
        match r {
            Ok(plan) => plan.path == path && plan_of(bytes@, path_text(path)) == Ok::<
                Seq<LibraryView>,
                ApkPlanErrorView,
            >(plan.libraries()),
            Err(e) => plan_of(bytes@, path_text(path)) == Err::<Seq<LibraryView>, ApkPlanErrorView>(
                e@,
            ),
        },
{
    let entries = match parse_zip_entries(bytes) {
        Ok(entries) => entries,
        Err(err) => return Err(ApkPlanError::Zip(err)),
    };
    let ghost listed = entry_views(entries@);
    let ghost base = path_text(path);
    let mut native_libraries: Vec<NativeLibraryPlan> = Vec::new();
    assert(library_views(native_libraries@) =~= Seq::empty());
    let mut idx: usize = 0;
    while idx < entries.len()
        invariant
            idx <= entries@.len(),
            libraries_from(bytes@, base, listed, 0, Seq::empty()) == libraries_from(
                bytes@,
                base,
                listed,
                idx as int,
                library_views(native_libraries@),
            ),
        decreases entries@.len() - idx,
    {
        let entry = &entries[idx];
        assert(listed[idx as int] == entry@);
        if is_native_library(entry.name.as_str()) {
            let extracted = match extract_parsed_zip_entry(bytes, entry) {
                Ok(extracted) => extracted,
                Err(err) => return Err(ApkPlanError::Zip(err)),
            };
            let library = plan_library(&path, entry, extracted.as_slice());
            assert(library_views(native_libraries@.push(library)) =~= library_views(
                native_libraries@,
            ).push(library@));
            native_libraries.push(library);
        }
        idx += 1;
    }
    Ok(ApkRunPlan { path, native_libraries: sort_libraries(native_libraries) })
}

/// The lines of what keeps libraries from running are those of the libraries with a
/// blocker, in their order.
pub proof fn lines_of_blocked_libraries(libs: Seq<LibraryView>) -> (which: Seq<int>)
    ensures
        blocked_lines(libs).len() == which.len(),
        forall|j: int|
            0 <= j < which.len() ==> {
                let lib = libs[#[trigger] which[j]];
                &&& 0 <= which[j] < libs.len()
                &&& lib.armv7a_blockers.len() > 0
                &&& blocked_lines(libs)[j] == lib.entry_name + ": "@ + joined(
                    blocker_texts(lib.armv7a_blockers),
                )
            },
        forall|j: int, k: int| 0 <= j < k < which.len() ==> #[trigger] which[j] < #[trigger] which[k],
        forall|i: int|
            0 <= i < libs.len() && (#[trigger] libs[i]).armv7a_blockers.len() > 0 ==> which.contains(i),
    decreases libs.len(),
{
    if libs.len() == 0 {
        Seq::empty()
    } else {
        let rest = libs.drop_last();
        let before = lines_of_blocked_libraries(rest);
        let n = libs.len() - 1;
        if libs.last().armv7a_blockers.len() == 0 {
            assert forall|i: int|
                0 <= i < libs.len() && (
                #[trigger] libs[i]).armv7a_blockers.len() > 0 implies before.contains(i) by {
                assert(rest[i] == libs[i]);
            }
            assert forall|j: int| 0 <= j < before.len() implies ({
                let lib = libs[#[trigger] before[j]];
                &&& 0 <= before[j] < libs.len()
                &&& lib.armv7a_blockers.len() > 0
                &&& blocked_lines(libs)[j] == lib.entry_name + ": "@ + joined(
                    blocker_texts(lib.armv7a_blockers),
                )
            }) by {
                assert(rest[before[j]] == libs[before[j]]);
            }
            before
        } else {
            let which = before.push(n);
            assert forall|i: int|
                0 <= i < libs.len() && (
                #[trigger] libs[i]).armv7a_blockers.len() > 0 implies which.contains(i) by {
                if i == n {
                    assert(which[before.len() as int] == i);
                } else {
                    assert(rest[i] == libs[i]);
                    assert(before.contains(i));
                    let j = choose|j: int| 0 <= j < before.len() && before[j] == i;
                    assert(which[j] == i);
                }
            }
            assert forall|j: int| 0 <= j < which.len() implies ({
                let lib = libs[#[trigger] which[j]];
                &&& 0 <= which[j] < libs.len()
                &&& lib.armv7a_blockers.len() > 0
                &&& blocked_lines(libs)[j] == lib.entry_name + ": "@ + joined(
                    blocker_texts(lib.armv7a_blockers),
                )
            }) by {
                if j < before.len() {
                    assert(which[j] == before[j]);
                    assert(rest[before[j]] == libs[before[j]]);
                }
            }
            which
        }
    }
}

} // verus!
