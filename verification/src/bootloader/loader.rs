use vstd::prelude::*;

use crate::bootloader::elf::{
    Elf, EntryType, HeaderEntry, elf_ok, le_u64, parse_in_bounds, ph_count, ph_offset, program_header_matches,
};

verus! {

/// A run of 2 MiB pages of the kernel, virtual and physical, both inclusive:
/// `((first_virt_page, last_virt_page), (first_phys_page, last_phys_page))`.
pub type PageRanges = ((u64, u64), (u64, u64));

/// Whether two runs are merged: the second starts inside the first, or ends inside it,
/// or encloses it. Only the virtual pages are compared, as virtual and physical pages
/// differ by the same amount in every run.
pub open spec fn ranges_touch(a: PageRanges, b: PageRanges) -> bool {
    let ((vstart1, vend1), _) = a;
    let ((vstart2, vend2), _) = b;
    ||| vstart1 <= vstart2 && vend1 >= vstart2
    ||| vstart1 <= vend2 && vend1 >= vend2
    ||| vstart1 >= vstart2 && vend1 <= vend2
}

/// The smallest run that holds both runs, in both coordinates.
pub open spec fn ranges_hull(a: PageRanges, b: PageRanges) -> PageRanges {
    let ((vs1, ve1), (ps1, pe1)) = a;
    let ((vs2, ve2), (ps2, pe2)) = b;
    (
        (if vs1 <= vs2 { vs1 } else { vs2 }, if ve1 >= ve2 { ve1 } else { ve2 }),
        (if ps1 <= ps2 { ps1 } else { ps2 }, if pe1 >= pe2 { pe1 } else { pe2 }),
    )
}

/// Run `outer` holds run `inner`, virtual and physical pages alike.
pub open spec fn ranges_contain(outer: PageRanges, inner: PageRanges) -> bool {
    &&& outer.0.0 <= inner.0.0
    &&& inner.0.1 <= outer.0.1
    &&& outer.1.0 <= inner.1.0
    &&& inner.1.1 <= outer.1.1
}

/// No run of the list, compared with a later one, is one that the merge joins.
pub open spec fn ranges_disjoint(s: Seq<PageRanges>) -> bool {
    forall|a: int, b: int| 0 <= a < b < s.len() ==> !ranges_touch(#[trigger] s[a], #[trigger] s[b])
}

/// Some run of `outer` holds run `r`.
pub open spec fn run_covered(r: PageRanges, outer: Seq<PageRanges>) -> bool {
    exists|m: int| 0 <= m < outer.len() && ranges_contain(#[trigger] outer[m], r)
}

/// Every run of `inner` lies in some run of `outer`.
#[verifier::opaque]
pub open spec fn ranges_covered(inner: Seq<PageRanges>, outer: Seq<PageRanges>) -> bool {
    forall|k: int| 0 <= k < inner.len() ==> run_covered(#[trigger] inner[k], outer)
}

/// Each of the four bounds of run `r` is the same bound of some run of `inner`.
pub open spec fn run_sourced(r: PageRanges, inner: Seq<PageRanges>) -> bool {
    &&& exists|k: int| 0 <= k < inner.len() && r.0.0 == (#[trigger] inner[k]).0.0
    &&& exists|k: int| 0 <= k < inner.len() && r.0.1 == (#[trigger] inner[k]).0.1
    &&& exists|k: int| 0 <= k < inner.len() && r.1.0 == (#[trigger] inner[k]).1.0
    &&& exists|k: int| 0 <= k < inner.len() && r.1.1 == (#[trigger] inner[k]).1.1
}

/// Every bound of every run of `outer` is the same bound of some run of `inner`.
#[verifier::opaque]
pub open spec fn ranges_bounds_from(outer: Seq<PageRanges>, inner: Seq<PageRanges>) -> bool {
    forall|m: int| 0 <= m < outer.len() ==> run_sourced(#[trigger] outer[m], inner)
}

proof fn lemma_merge_covered(s: Seq<PageRanges>, orig: Seq<PageRanges>, i: int, j: int)
    requires
        0 <= i < j < s.len(),
        ranges_covered(orig, s),
    ensures
        ranges_covered(orig, s.remove(j).remove(i).push(ranges_hull(s[i], s[j]))),
{
    reveal(ranges_covered);
    let t = s.remove(j).remove(i).push(ranges_hull(s[i], s[j]));
    assert forall|k: int| 0 <= k < orig.len() implies run_covered(#[trigger] orig[k], t) by {
        assert(run_covered(orig[k], s));
        let w = choose|m: int| 0 <= m < s.len() && ranges_contain(#[trigger] s[m], orig[k]);
        if w == i || w == j {
            assert(ranges_contain(t[t.len() - 1], orig[k]));
        } else if w < i {
            assert(t[w] == s[w]);
        } else if w < j {
            assert(t[w - 1] == s[w]);
        } else {
            assert(t[w - 2] == s[w]);
        }
    }
}

proof fn lemma_merge_sourced(s: Seq<PageRanges>, orig: Seq<PageRanges>, i: int, j: int)
    requires
        0 <= i < j < s.len(),
        ranges_bounds_from(s, orig),
    ensures
        ranges_bounds_from(s.remove(j).remove(i).push(ranges_hull(s[i], s[j])), orig),
{
    reveal(ranges_bounds_from);
    let t = s.remove(j).remove(i).push(ranges_hull(s[i], s[j]));
    assert(run_sourced(s[i], orig));
    assert(run_sourced(s[j], orig));
    assert forall|m: int| 0 <= m < t.len() implies run_sourced(#[trigger] t[m], orig) by {
        if m == t.len() - 1 {
        } else if m < i {
            assert(t[m] == s[m]);
        } else if m < j - 1 {
            assert(t[m] == s[m + 1]);
        } else {
            assert(t[m] == s[m + 2]);
        }
    }
}

proof fn lemma_ranges_start(s: Seq<PageRanges>)
    ensures
        ranges_covered(s, s),
        ranges_bounds_from(s, s),
{
    reveal(ranges_covered);
    reveal(ranges_bounds_from);
    assert forall|k: int| 0 <= k < s.len() implies run_covered(#[trigger] s[k], s) by {
        assert(ranges_contain(s[k], s[k]));
    }
    assert forall|m: int| 0 <= m < s.len() implies run_sourced(#[trigger] s[m], s) by {
    }
}

/// The run's virtual pages go upwards: its first page is not after its last.
pub open spec fn run_wf(r: PageRanges) -> bool {
    r.0.0 <= r.0.1
}

/// Every run of the list goes upwards.
pub open spec fn runs_wf(s: Seq<PageRanges>) -> bool {
    forall|m: int| 0 <= m < s.len() ==> run_wf(#[trigger] s[m])
}

/// Virtual page `p` is one of the run's pages.
pub open spec fn page_in(r: PageRanges, p: int) -> bool {
    r.0.0 <= p <= r.0.1
}

/// Every virtual page of every run of `outer` is a page of some run of `inner`.
#[verifier::opaque]
pub open spec fn pages_from(outer: Seq<PageRanges>, inner: Seq<PageRanges>) -> bool {
    forall|m: int, p: int| 0 <= m < outer.len() && #[trigger] page_in(outer[m], p)
        ==> exists|k: int| 0 <= k < inner.len() && #[trigger] page_in(inner[k], p)
}

/// Run `k` of the list touches no other run of it, either way round.
pub open spec fn run_isolated(s: Seq<PageRanges>, k: int) -> bool {
    forall|j: int| 0 <= j < s.len() && j != k ==> !ranges_touch(s[k], #[trigger] s[j]) && !ranges_touch(s[j], s[k])
}

/// The two runs share no virtual page.
pub open spec fn virt_apart(a: PageRanges, b: PageRanges) -> bool {
    a.0.1 < b.0.0 || b.0.1 < a.0.0
}

/// Run `r` is in the list unchanged, and every other run of the list is `r` again or
/// shares no virtual page with it.
pub open spec fn run_kept(r: PageRanges, s: Seq<PageRanges>) -> bool {
    &&& exists|m: int| 0 <= m < s.len() && #[trigger] s[m] == r
    &&& forall|m: int| 0 <= m < s.len() ==> #[trigger] s[m] == r || virt_apart(s[m], r)
}

/// Every run of `orig` that touches no other run of it is kept in `s` (see `run_kept`).
#[verifier::opaque]
pub open spec fn isolated_kept(orig: Seq<PageRanges>, s: Seq<PageRanges>) -> bool {
    forall|k: int| 0 <= k < orig.len() && #[trigger] run_isolated(orig, k) ==> run_kept(orig[k], s)
}

proof fn lemma_separate_start(s: Seq<PageRanges>)
    requires
        runs_wf(s),
    ensures
        pages_from(s, s),
        isolated_kept(s, s),
{
    reveal(pages_from);
    reveal(isolated_kept);
    assert forall|k: int| 0 <= k < s.len() && #[trigger] run_isolated(s, k) implies run_kept(s[k], s) by {
        assert(s[k] == s[k]);
        assert forall|m: int| 0 <= m < s.len() implies #[trigger] s[m] == s[k] || virt_apart(s[m], s[k]) by {
            if m != k {
                assert(!ranges_touch(s[k], s[m]));
                assert(run_wf(s[m]) && run_wf(s[k]));
            }
        }
    }
}

proof fn lemma_merge_separate(s: Seq<PageRanges>, orig: Seq<PageRanges>, i: int, j: int)
    requires
        0 <= i < j < s.len(),
        ranges_touch(s[i], s[j]),
        runs_wf(s),
        pages_from(s, orig),
        isolated_kept(orig, s),
    ensures
        runs_wf(s.remove(j).remove(i).push(ranges_hull(s[i], s[j]))),
        pages_from(s.remove(j).remove(i).push(ranges_hull(s[i], s[j])), orig),
        isolated_kept(orig, s.remove(j).remove(i).push(ranges_hull(s[i], s[j]))),
{
    let h = ranges_hull(s[i], s[j]);
    let t = s.remove(j).remove(i).push(h);
    assert(run_wf(s[i]) && run_wf(s[j]));
    assert(t.len() == s.len() - 1);
    assert forall|m: int| 0 <= m < t.len() - 1 implies #[trigger] t[m] == s[if m < i { m } else if m < j - 1 { m + 1 } else { m + 2 }] by {
    }
    assert(t[t.len() - 1] == h);
    assert forall|m: int| 0 <= m < t.len() implies run_wf(#[trigger] t[m]) by {
        if m < t.len() - 1 {
            let w: int = if m < i { m } else if m < j - 1 { m + 1 } else { m + 2 };
            assert(t[m] == s[w]);
        }
    }
    reveal(pages_from);
    assert forall|m: int, p: int| 0 <= m < t.len() && #[trigger] page_in(t[m], p)
        implies exists|k: int| 0 <= k < orig.len() && #[trigger] page_in(orig[k], p) by {
        if m < t.len() - 1 {
            let w: int = if m < i { m } else if m < j - 1 { m + 1 } else { m + 2 };
            assert(t[m] == s[w]);
            assert(page_in(s[w], p));
        } else if page_in(s[i], p) {
        } else {
            assert(page_in(s[j], p));
        }
    }
    reveal(isolated_kept);
    assert forall|k: int| 0 <= k < orig.len() && #[trigger] run_isolated(orig, k) implies run_kept(orig[k], t) by {
        let r = orig[k];
        assert(run_kept(r, s));
        let m0: int = choose|m: int| 0 <= m < s.len() && #[trigger] s[m] == r;
        assert(s[i] == r || virt_apart(s[i], r));
        assert(s[j] == r || virt_apart(s[j], r));
        if s[i] == r || s[j] == r {
            assert(s[i] == r && s[j] == r);
            assert(h == r);
            assert(t[t.len() - 1] == r);
        } else {
            assert(virt_apart(h, r));
            let w: int = if m0 < i { m0 } else if m0 < j { m0 - 1 } else { m0 - 2 };
            assert(t[w] == s[m0]);
        }
        assert forall|m: int| 0 <= m < t.len() implies #[trigger] t[m] == r || virt_apart(t[m], r) by {
            if m < t.len() - 1 {
                let w: int = if m < i { m } else if m < j - 1 { m + 1 } else { m + 2 };
                assert(t[m] == s[w]);
            }
        }
    }
}

/// Every run's physical pages go upwards.
pub open spec fn phys_runs_wf(s: Seq<PageRanges>) -> bool {
    forall|m: int| 0 <= m < s.len() ==> (#[trigger] s[m]).1.0 <= s[m].1.1
}

proof fn lemma_merge_phys(s: Seq<PageRanges>, i: int, j: int)
    requires
        0 <= i < j < s.len(),
        phys_runs_wf(s),
    ensures
        phys_runs_wf(s.remove(j).remove(i).push(ranges_hull(s[i], s[j]))),
{
    let t = s.remove(j).remove(i).push(ranges_hull(s[i], s[j]));
    assert(s[i].1.0 <= s[i].1.1 && s[j].1.0 <= s[j].1.1);
    assert forall|m: int| 0 <= m < t.len() implies (#[trigger] t[m]).1.0 <= t[m].1.1 by {
        if m < t.len() - 1 {
            let w: int = if m < i { m } else if m < j - 1 { m + 1 } else { m + 2 };
            assert(t[m] == s[w]);
        }
    }
}

/// Merges runs until no run touches a later one (see `ranges_touch`). A merged run is
/// the hull of the two it replaces; it goes to the end of the list. When every run goes
/// upwards, the merged list holds no virtual page that no run held before, and a run
/// that touches no other run stays as it was.
pub fn merge_page_ranges(kernel_addresses: &mut Vec<PageRanges>)
    ensures
        ranges_disjoint(final(kernel_addresses)@),
        ranges_covered(old(kernel_addresses)@, final(kernel_addresses)@),
        ranges_bounds_from(final(kernel_addresses)@, old(kernel_addresses)@),
        final(kernel_addresses)@.len() <= old(kernel_addresses)@.len(),
        runs_wf(old(kernel_addresses)@) ==> pages_from(final(kernel_addresses)@, old(kernel_addresses)@),
        runs_wf(old(kernel_addresses)@) ==> isolated_kept(old(kernel_addresses)@, final(kernel_addresses)@),
        phys_runs_wf(old(kernel_addresses)@) ==> phys_runs_wf(final(kernel_addresses)@),
{
    let ghost orig = kernel_addresses@;
    let ghost wf_in = runs_wf(orig);
    let ghost phys_in = phys_runs_wf(orig);
    proof {
        lemma_ranges_start(orig);
        if wf_in {
            lemma_separate_start(orig);
        }
    }
    let mut has_changed = true;
    while has_changed
        invariant
            ranges_covered(orig, kernel_addresses@),
            ranges_bounds_from(kernel_addresses@, orig),
                wf_in == runs_wf(orig),
                wf_in ==> runs_wf(kernel_addresses@) && pages_from(kernel_addresses@, orig) && isolated_kept(orig, kernel_addresses@),
                phys_in == phys_runs_wf(orig),
                phys_in ==> phys_runs_wf(kernel_addresses@),
            kernel_addresses@.len() <= orig.len(),
            !has_changed ==> ranges_disjoint(kernel_addresses@),
        decreases kernel_addresses@.len() + (if has_changed { 1int } else { 0int }),
    {
        has_changed = false;
        let ghost start_len = kernel_addresses@.len();
        let mut i: usize = 0;
        while i < kernel_addresses.len()
            invariant
                ranges_covered(orig, kernel_addresses@),
                ranges_bounds_from(kernel_addresses@, orig),
                wf_in == runs_wf(orig),
                wf_in ==> runs_wf(kernel_addresses@) && pages_from(kernel_addresses@, orig) && isolated_kept(orig, kernel_addresses@),
                phys_in == phys_runs_wf(orig),
                phys_in ==> phys_runs_wf(kernel_addresses@),
                kernel_addresses@.len() <= orig.len(),
                has_changed ==> kernel_addresses@.len() < start_len,
                !has_changed ==> kernel_addresses@.len() == start_len,
                !has_changed ==> forall|a: int, b: int| 0 <= a < i && a < b < kernel_addresses@.len()
                    ==> !ranges_touch(#[trigger] kernel_addresses@[a], #[trigger] kernel_addresses@[b]),
                i <= kernel_addresses@.len() + 1,
            decreases kernel_addresses@.len() + 1 - i,
        {
            let ghost len_i = kernel_addresses@.len();
            let mut j: usize = i + 1;
            while j < kernel_addresses.len()
                invariant
                    i < j,
                    i <= kernel_addresses@.len(),
                    kernel_addresses@.len() <= len_i,
                    ranges_covered(orig, kernel_addresses@),
                    ranges_bounds_from(kernel_addresses@, orig),
                wf_in == runs_wf(orig),
                wf_in ==> runs_wf(kernel_addresses@) && pages_from(kernel_addresses@, orig) && isolated_kept(orig, kernel_addresses@),
                phys_in == phys_runs_wf(orig),
                phys_in ==> phys_runs_wf(kernel_addresses@),
                    kernel_addresses@.len() <= orig.len(),
                    has_changed ==> kernel_addresses@.len() < start_len,
                    !has_changed ==> kernel_addresses@.len() == start_len,
                    !has_changed ==> forall|a: int, b: int| 0 <= a < i && a < b < kernel_addresses@.len()
                        ==> !ranges_touch(#[trigger] kernel_addresses@[a], #[trigger] kernel_addresses@[b]),
                    !has_changed ==> forall|b: int| i < b < j ==> !ranges_touch(kernel_addresses@[i as int], #[trigger] kernel_addresses@[b]),
                decreases kernel_addresses@.len() - j,
            {
                let ((vstart1, vend1), (pstart1, pend1)) = kernel_addresses[i];
                let ((vstart2, vend2), (pstart2, pend2)) = kernel_addresses[j];
                if vstart1 <= vstart2 && vend1 >= vstart2 || vstart1 <= vend2 && vend1 >= vend2
                    || vstart1 >= vstart2 && vend1 <= vend2 {
                    let vfirst = if vstart1 <= vstart2 { vstart1 } else { vstart2 };
                    let pfirst = if pstart1 <= pstart2 { pstart1 } else { pstart2 };
                    let vlast = if vend1 >= vend2 { vend1 } else { vend2 };
                    let plast = if pend1 >= pend2 { pend1 } else { pend2 };
                    proof {
                        lemma_merge_covered(kernel_addresses@, orig, i as int, j as int);
                        lemma_merge_sourced(kernel_addresses@, orig, i as int, j as int);
                        if wf_in {
                            lemma_merge_separate(kernel_addresses@, orig, i as int, j as int);
                        }
                        if phys_in {
                            lemma_merge_phys(kernel_addresses@, i as int, j as int);
                        }
                    }
                    kernel_addresses.remove(j);
                    kernel_addresses.remove(i);
                    kernel_addresses.push(((vfirst, vlast), (pfirst, plast)));
                    has_changed = true;
                    continue;
                }
                j = j + 1;
            }
            i = i + 1;
        }
    }
}

/// Where the kernel image is placed in physical memory: 4 MiB.
pub const KERNEL_PHYSICAL_OFFSET: u64 = 0x40_0000;

/// The lowest virtual address of the loadable segments (`u64::MAX` when there is none).
pub open spec fn lowest_load_address_of(segments: Seq<HeaderEntry>) -> u64
    decreases segments.len(),
{
    if segments.len() == 0 {
        u64::MAX
    } else {
        let rest = lowest_load_address_of(segments.drop_last());
        let last = segments.last();
        if last.entry_type == EntryType::Load && last.virtual_addr < rest {
            last.virtual_addr
        } else {
            rest
        }
    }
}

/// The lowest load address is that of a loadable segment, no higher than any other
/// loadable segment's; headers of other types never count. With no loadable segment
/// it is `u64::MAX`.
pub proof fn lemma_lowest_is_a_load_address(segments: Seq<HeaderEntry>)
    ensures
        forall|i: int| 0 <= i < segments.len() && (#[trigger] segments[i]).entry_type == EntryType::Load
            ==> lowest_load_address_of(segments) <= segments[i].virtual_addr,
        (exists|i: int| 0 <= i < segments.len() && (#[trigger] segments[i]).entry_type == EntryType::Load) ==> exists|i: int|
            0 <= i < segments.len() && (#[trigger] segments[i]).entry_type == EntryType::Load && lowest_load_address_of(
            segments) == segments[i].virtual_addr,
        (forall|i: int| 0 <= i < segments.len() ==> (#[trigger] segments[i]).entry_type != EntryType::Load)
            ==> lowest_load_address_of(segments) == u64::MAX,
    decreases segments.len(),
{
    if segments.len() > 0 {
        let rest = segments.drop_last();
        lemma_lowest_is_a_load_address(rest);
        let n = segments.len() - 1;
        assert forall|i: int| 0 <= i < n implies segments[i] == #[trigger] rest[i] by {}
        if segments.last().entry_type == EntryType::Load && segments.last().virtual_addr < lowest_load_address_of(rest) {
            assert(segments[n].entry_type == EntryType::Load);
        } else {
            if exists|i: int| 0 <= i < segments.len() && (#[trigger] segments[i]).entry_type == EntryType::Load {
                let j = choose|i: int| 0 <= i < segments.len() && (#[trigger] segments[i]).entry_type == EntryType::Load;
                if j < n {
                    assert(rest[j].entry_type == EntryType::Load);
                    let k = choose|i: int| 0 <= i < rest.len() && (#[trigger] rest[i]).entry_type == EntryType::Load
                        && lowest_load_address_of(rest) == rest[i].virtual_addr;
                    assert(segments[k] == rest[k]);
                } else {
                    if exists|i: int| 0 <= i < rest.len() && (#[trigger] rest[i]).entry_type == EntryType::Load {
                        let k = choose|i: int| 0 <= i < rest.len() && (#[trigger] rest[i]).entry_type == EntryType::Load
                            && lowest_load_address_of(rest) == rest[i].virtual_addr;
                        assert(segments[k] == rest[k]);
                    } else {
                        assert(segments[n].entry_type == EntryType::Load);
                        assert(segments[n].virtual_addr <= u64::MAX);
                        assert(segments[n] == segments.last());
                    }
                }
            }
            assert forall|i: int| 0 <= i < segments.len() && (#[trigger] segments[i]).entry_type == EntryType::Load
                implies lowest_load_address_of(segments) <= segments[i].virtual_addr by {
                if i < n {
                    assert(rest[i].entry_type == EntryType::Load);
                }
            }
            assert((forall|i: int| 0 <= i < segments.len() ==> (#[trigger] segments[i]).entry_type != EntryType::Load)
                ==> (forall|i: int| 0 <= i < rest.len() ==> (#[trigger] rest[i]).entry_type != EntryType::Load));
        }
        assert forall|i: int| 0 <= i < segments.len() && (#[trigger] segments[i]).entry_type == EntryType::Load
            implies lowest_load_address_of(segments) <= segments[i].virtual_addr by {
            if i < n {
                assert(rest[i].entry_type == EntryType::Load);
            }
        }
    }
}

/// The lowest virtual address of the loadable segments (`u64::MAX` when there is none).
pub fn lowest_load_address(segments: &[HeaderEntry]) -> (ret: u64)
    ensures
        ret == lowest_load_address_of(segments@),
        forall|i: int| 0 <= i < segments@.len() && (#[trigger] segments@[i]).entry_type == EntryType::Load
            ==> ret <= segments@[i].virtual_addr,
{
    let mut lowest_base = u64::MAX;
    let mut i: usize = 0;
    while i < segments.len()
        invariant
            i <= segments@.len(),
            lowest_base == lowest_load_address_of(segments@.subrange(0, i as int)),
            forall|k: int| 0 <= k < i && (#[trigger] segments@[k]).entry_type == EntryType::Load
                ==> lowest_base <= segments@[k].virtual_addr,
        decreases segments@.len() - i,
    {
        assert(segments@.subrange(0, i + 1).drop_last() =~= segments@.subrange(0, i as int));
        let segment = &segments[i];
        if segment.entry_type == EntryType::Load && segment.virtual_addr < lowest_base {
            lowest_base = segment.virtual_addr;
        }
        i = i + 1;
    }
    assert(segments@.subrange(0, i as int) =~= segments@);
    lowest_base
}

/// The number of times `t` can be halved before it drops to one or below.
pub open spec fn log2_floor(t: nat) -> nat
    decreases t,
{
    if t <= 1 {
        0
    } else {
        1 + log2_floor(t / 2)
    }
}

proof fn lemma_log2_floor_below(t: nat, n: nat)
    requires
        n >= 1,
        t < vstd::arithmetic::power2::pow2(n),
    ensures
        log2_floor(t) <= n - 1,
    decreases t,
{
    if t > 1 {
        vstd::arithmetic::power2::lemma_pow2_unfold(n);
        if n == 1 {
            vstd::arithmetic::power2::lemma2_to64();
        } else {
            lemma_log2_floor_below(t / 2, (n - 1) as nat);
        }
    }
}

proof fn lemma_log2_floor_bound(t: nat)
    requires
        t < 0x1_0000_0000_0000_0000,
    ensures
        log2_floor(t) <= 63,
{
    vstd::arithmetic::power2::lemma2_to64();
    lemma_log2_floor_below(t, 64);
}

/// The mask that clears the low bits of an address below the segment alignment: all
/// ones shifted left once per halving of `align` down to one.
pub fn segment_align_mask(align: u64) -> (ret: u64)
    ensures
        ret == u64::MAX << log2_floor(align as nat),
{
    proof { lemma_log2_floor_bound(align as nat); }
    let mut align_mask: u64 = !0;
    let mut t = align;
    let ghost mut k: nat = 0;
    assert(!0u64 == u64::MAX << 0u64) by (bit_vector);
    while t > 1
        invariant
            k + log2_floor(t as nat) == log2_floor(align as nat),
            log2_floor(align as nat) <= 63,
            align_mask == u64::MAX << k,
        decreases t,
    {
        let ghost kk = k as u64;
        assert(kk < 63);
        assert((u64::MAX << kk) << 1u64 == u64::MAX << ((kk + 1) as u64)) by (bit_vector)
            requires
                kk < 63,
        ;
        assert(t >> 1u64 == t / 2) by (bit_vector);
        align_mask = align_mask << 1u64;
        t = t >> 1u64;
        proof { k = k + 1; }
    }
    align_mask
}

/// The 2 MiB pages that a loadable segment covers, virtual and physical; its physical
/// address is its virtual address less the lowest one.
pub open spec fn segment_page_ranges(segment: HeaderEntry, lowest_base: u64) -> PageRanges {
    let mask = u64::MAX << log2_floor(segment.align as nat);
    let virt_start = segment.virtual_addr;
    let virt_end = (virt_start + segment.mem_size) as u64;
    let phys_start = (segment.virtual_addr - lowest_base) as u64;
    let phys_end = (phys_start + segment.mem_size) as u64;
    (((virt_start & mask) >> 21u64, virt_end >> 21u64), ((phys_start & mask) >> 21u64, phys_end >> 21u64))
}

/// The page runs of the loadable segments, in order.
pub open spec fn load_page_ranges(segments: Seq<HeaderEntry>, lowest_base: u64) -> Seq<PageRanges>
    decreases segments.len(),
{
    if segments.len() == 0 {
        Seq::empty()
    } else {
        let rest = load_page_ranges(segments.drop_last(), lowest_base);
        if segments.last().entry_type == EntryType::Load {
            rest.push(segment_page_ranges(segments.last(), lowest_base))
        } else {
            rest
        }
    }
}

/// The address arithmetic of every loadable segment stays within 64 bits.
pub open spec fn segments_fit(segments: Seq<HeaderEntry>, lowest_base: u64) -> bool {
    forall|i: int| 0 <= i < segments.len() && (#[trigger] segments[i]).entry_type == EntryType::Load ==> {
        &&& segments[i].virtual_addr + segments[i].mem_size <= u64::MAX
        &&& lowest_base <= segments[i].virtual_addr
        &&& segments[i].virtual_addr - lowest_base + segments[i].mem_size <= u64::MAX
    }
}

/// The 2 MiB page runs of the loadable segments, in order.
pub fn kernel_page_ranges(segments: &[HeaderEntry], lowest_base: u64) -> (ret: Vec<PageRanges>)
    requires
        segments_fit(segments@, lowest_base),
    ensures
        ret@ == load_page_ranges(segments@, lowest_base),
{
    let mut kernel_addresses: Vec<PageRanges> = Vec::new();
    let mut i: usize = 0;
    while i < segments.len()
        invariant
            i <= segments@.len(),
            segments_fit(segments@, lowest_base),
            kernel_addresses@ == load_page_ranges(segments@.subrange(0, i as int), lowest_base),
        decreases segments@.len() - i,
    {
        assert(segments@.subrange(0, i + 1).drop_last() =~= segments@.subrange(0, i as int));
        let segment = &segments[i];
        if segment.entry_type == EntryType::Load {
            assert(segments@[i as int].entry_type == EntryType::Load);
            let virt_start = segment.virtual_addr;
            let virt_end = virt_start + segment.mem_size;
            let phys_start = segment.virtual_addr - lowest_base;
            let phys_end = phys_start + segment.mem_size;
            let align_mask = segment_align_mask(segment.align);
            let aligned_virt_start = virt_start & align_mask;
            let first_virt_page = aligned_virt_start >> 21u64;
            let last_virt_page = virt_end >> 21u64;
            let aligned_phys_start = phys_start & align_mask;
            let first_phys_page = aligned_phys_start >> 21u64;
            let last_phys_page = phys_end >> 21u64;
            kernel_addresses.push(((first_virt_page, last_virt_page), (first_phys_page, last_phys_page)));
        }
        i = i + 1;
    }
    assert(segments@.subrange(0, i as int) =~= segments@);
    kernel_addresses
}

/// Moves every physical page run up by `offset_page` pages.
pub fn shift_physical_pages(kernel_addresses: &mut Vec<PageRanges>, offset_page: u64)
    requires
        forall|k: int| 0 <= k < old(kernel_addresses)@.len() ==> (#[trigger] old(kernel_addresses)@[k]).1.1 + offset_page <= u64::MAX
            && old(kernel_addresses)@[k].1.0 + offset_page <= u64::MAX,
    ensures
        final(kernel_addresses)@.len() == old(kernel_addresses)@.len(),
        forall|k: int| 0 <= k < final(kernel_addresses)@.len() ==> #[trigger] final(kernel_addresses)@[k] == (
            old(kernel_addresses)@[k].0,
            ((old(kernel_addresses)@[k].1.0 + offset_page) as u64, (old(kernel_addresses)@[k].1.1 + offset_page) as u64),
        ),
{
    let ghost before = kernel_addresses@;
    let mut i: usize = 0;
    while i < kernel_addresses.len()
        invariant
            i <= kernel_addresses@.len(),
            kernel_addresses@.len() == before.len(),
            forall|k: int| 0 <= k < before.len() ==> (#[trigger] before[k]).1.1 + offset_page <= u64::MAX
                && before[k].1.0 + offset_page <= u64::MAX,
            forall|k: int| 0 <= k < i ==> #[trigger] kernel_addresses@[k] == (
                before[k].0, ((before[k].1.0 + offset_page) as u64, (before[k].1.1 + offset_page) as u64)),
            forall|k: int| i <= k < before.len() ==> #[trigger] kernel_addresses@[k] == before[k],
        decreases before.len() - i,
    {
        let (virt, (pstart, pend)) = kernel_addresses[i];
        assert(before[i as int] == (virt, (pstart, pend)));
        kernel_addresses.set(i, (virt, (pstart + offset_page, pend + offset_page)));
        i = i + 1;
    }
}

/// Where a segment (or the entry point) at `virtual_addr` lands in physical memory.
pub fn physical_load_address(virtual_addr: u64, offset: u64, lowest_base: u64) -> (ret: u64)
    requires
        virtual_addr + offset <= u64::MAX,
        lowest_base <= virtual_addr + offset,
    ensures
        ret == virtual_addr + offset - lowest_base,
{
    virtual_addr + offset - lowest_base
}

/// The number of 2 MiB pages of a physical run, both ends included.
pub fn run_page_count(pstart: u64, pend: u64) -> (ret: u64)
    requires
        pstart <= pend,
        pend - pstart + 1 <= u64::MAX,
    ensures
        ret == pend - pstart + 1,
{
    pend - pstart + 1
}

/// The end of the highest memory region, given each region's start and page count.
pub open spec fn regions_end(regions: Seq<(u64, u64)>) -> int
    decreases regions.len(),
{
    if regions.len() == 0 {
        0
    } else {
        let rest = regions_end(regions.drop_last());
        let end = regions.last().0 + regions.last().1 * 4096;
        if end > rest {
            end
        } else {
            rest
        }
    }
}

proof fn lemma_regions_end_nonneg(regions: Seq<(u64, u64)>)
    ensures
        regions_end(regions) >= 0,
    decreases regions.len(),
{
    if regions.len() > 0 {
        lemma_regions_end_nonneg(regions.drop_last());
    }
}

/// The end of the highest memory region (0 when there is none): each region is its start
/// and its number of 4 KiB pages.
pub fn physical_memory_end(regions: &[(u64, u64)]) -> (ret: u64)
    requires
        forall|i: int| 0 <= i < regions@.len() ==> (#[trigger] regions@[i]).0 + regions@[i].1 * 4096 <= u64::MAX,
    ensures
        ret == regions_end(regions@),
{
    let mut max_physical: u64 = 0;
    let mut i: usize = 0;
    while i < regions.len()
        invariant
            i <= regions@.len(),
            forall|i: int| 0 <= i < regions@.len() ==> (#[trigger] regions@[i]).0 + regions@[i].1 * 4096 <= u64::MAX,
            max_physical == regions_end(regions@.subrange(0, i as int)),
        decreases regions@.len() - i,
    {
        assert(regions@.subrange(0, i + 1).drop_last() =~= regions@.subrange(0, i as int));
        let (phys_start, page_count) = regions[i];
        assert(regions@[i as int] == (phys_start, page_count));
        assert(page_count * 4096 <= u64::MAX) by (nonlinear_arith)
            requires
                phys_start + page_count * 4096 <= u64::MAX,
                phys_start >= 0,
        ;
        let end = phys_start + page_count * 4096;
        if end > max_physical {
            max_physical = end;
        }
        i = i + 1;
    }
    proof { lemma_regions_end_nonneg(regions@); }
    assert(regions@.subrange(0, i as int) =~= regions@);
    max_physical
}

/// The length of the bitmap of physical frames (one bit per 4 KiB frame) below `max_physical`.
pub fn frame_bitmap_len(max_physical: u64) -> (ret: u64)
    ensures
        ret == max_physical / 4096 / 8,
{
    let frame_count = max_physical / 4096;
    frame_count / 8
}

/// How far the identity map must reach: the end of physical memory, or of the framebuffer
/// when the framebuffer lies above it.
pub fn physical_cap(memory_end: u64, framebuffer_addr: u64, framebuffer_bytes: u64) -> (ret: u64)
    requires
        framebuffer_addr > memory_end ==> framebuffer_addr + framebuffer_bytes <= u64::MAX,
    ensures
        ret == if framebuffer_addr > memory_end { framebuffer_addr + framebuffer_bytes } else { memory_end as int },
{
    if framebuffer_addr > memory_end {
        framebuffer_addr + framebuffer_bytes
    } else {
        memory_end
    }
}

/// The number of 1 GiB pages that reach `physical_cap`, rounding up.
pub fn gig_page_count(physical_cap: u64) -> (ret: u64)
    requires
        physical_cap + 0x4000_0000 <= u64::MAX,
    ensures
        ret == (physical_cap + 0x3FFF_FFFF) / 0x4000_0000,
        ret * 0x4000_0000 >= physical_cap,
{
    (physical_cap + 0x4000_0000 - 1) / 0x4000_0000
}

/// Whether a UEFI memory type (by its number) holds memory that the loader maps and marks
/// as used: everything but conventional (7), reserved (0) and unusable (8) memory.
pub fn memory_type_in_use(memory_type: u32) -> (ret: bool)
    ensures
        ret == !(memory_type == 7 || memory_type == 0 || memory_type == 8),
{
    !(memory_type == 7 || memory_type == 0 || memory_type == 8)
}

/// Marks a 4 KiB frame as used in the bitmap of physical frames.
pub fn mark_frame_used(allocated_frames: &mut Vec<u8>, page: u64)
    requires
        page / 8 < old(allocated_frames)@.len(),
    ensures
        final(allocated_frames)@ == old(allocated_frames)@.update(
            (page / 8) as int,
            old(allocated_frames)@[(page / 8) as int] | (1u8 << (page % 8) as u8),
        ),
{
    let index = (page / 8) as usize;
    let bit = (page % 8) as u8;
    let value = allocated_frames[index] | 1u8 << bit;
    allocated_frames.set(index, value);
}

/// Whether a PCI function's class register (class, subclass, programming interface,
/// revision from the top byte down) names a USB 3 (xHCI) controller.
pub fn is_xhci_controller(info: u32) -> (ret: bool)
    ensures
        ret == ((info >> 24u32) & 0xFF == 0xC && (info >> 16u32) & 0xFF == 0x3 && (info >> 8u32) & 0xFF == 0x30),
{
    let class = info >> 24u32 & 0xFF;
    let subclass = info >> 16u32 & 0xFF;
    let function = info >> 8u32 & 0xFF;
    class == 0xC && subclass == 0x3 && function == 0x30
}

/// The configuration-space address of a PCI function for the legacy I/O ports.
pub fn pci_config_address(bus: u32, device: u32, function: u32) -> (ret: u32)
    requires
        bus < 256,
        device < 32,
        function < 8,
    ensures
        ret == 0x8000_0000u32 | bus << 16u32 | device << 11u32 | function << 8u32,
{
    0x8000_0000u32 | bus << 16u32 | device << 11u32 | function << 8u32
}

/// The 64-bit base address that two 32-bit base address registers make.
pub fn base_address_from_bars(bar0: u64, bar1: u64) -> (ret: u64)
    ensures
        ret == bar1 << 32u64 | bar0,
{
    bar1 << 32u64 | bar0
}

/// Counts screens of output: after `max` lines, the caller waits for a key.
pub struct Pager {
    pub count: usize,
    pub max: usize,
}

impl Pager {
    pub fn new(max: usize) -> (ret: Self)
        ensures
            ret.count == 0,
            ret.max == max,
    {
        Pager { count: 0, max }
    }

    /// Counts one line; returns whether the screen is full, in which case the count
    /// starts over and the caller waits for a key.
    pub fn next(&mut self) -> (ret: bool)
        requires
            old(self).count < usize::MAX,
        ensures
            ret == (old(self).count + 1 >= old(self).max),
            final(self).max == old(self).max,
            final(self).count == if ret { 0 } else { old(self).count + 1 },
    {
        self.count = self.count + 1;
        if self.count >= self.max {
            self.count = 0;
            true
        } else {
            false
        }
    }
}

/// Whether the address arithmetic of every loadable segment stays within 64 bits
/// (see `segments_fit`).
pub fn segments_fit_check(segments: &[HeaderEntry], lowest_base: u64) -> (ret: bool)
    ensures
        ret == segments_fit(segments@, lowest_base),
{
    let mut i: usize = 0;
    while i < segments.len()
        invariant
            i <= segments@.len(),
            forall|j: int| 0 <= j < i && (#[trigger] segments@[j]).entry_type == EntryType::Load ==> {
                &&& segments@[j].virtual_addr + segments@[j].mem_size <= u64::MAX
                &&& lowest_base <= segments@[j].virtual_addr
                &&& segments@[j].virtual_addr - lowest_base + segments@[j].mem_size <= u64::MAX
            },
        decreases segments@.len() - i,
    {
        let segment = &segments[i];
        if segment.entry_type == EntryType::Load {
            if segment.virtual_addr > u64::MAX - segment.mem_size || lowest_base > segment.virtual_addr
                || segment.virtual_addr - lowest_base > u64::MAX - segment.mem_size {
                assert((segments@[i as int]).entry_type == EntryType::Load);
                return false;
            }
        }
        i = i + 1;
    }
    true
}

/// How the kernel is laid out: its runs of 2 MiB pages (virtual, and physical past the
/// kernel's place in memory), each physical run as its first page and page count, the
/// lowest load address, and the entry point.
pub struct KernelLayout {
    pub runs: Vec<PageRanges>,
    pub physical_runs: Vec<(u64, u64)>,
    pub lowest_base: u64,
    pub virt_entry: u64,
}

/// Why the kernel image cannot be laid out (each stops the bootloader).
#[derive(Clone, Copy, PartialEq, Eq, Structural, Debug)]
pub enum LayoutError {
    /// A header or segment ends past the end of the file.
    Unreadable,
    /// The file is not an ELF file that the loader takes.
    NotElf,
    /// A loadable segment's addresses do not fit in 64 bits.
    SegmentOverflow,
}

/// `hs` are the program headers that the data describes.
pub open spec fn headers_match(hs: Seq<HeaderEntry>, d: Seq<u8>) -> bool {
    &&& hs.len() == ph_count(d)
    &&& forall|i: int| 0 <= i < ph_count(d) ==> program_header_matches(#[trigger] hs[i], d, ph_offset(d, i))
}

/// The two header lists agree on what the layout reads: type, address, size, alignment.
pub open spec fn same_layout_fields(a: Seq<HeaderEntry>, b: Seq<HeaderEntry>) -> bool {
    &&& a.len() == b.len()
    &&& forall|i: int| 0 <= i < a.len() ==> {
        &&& (#[trigger] a[i]).entry_type == b[i].entry_type
        &&& a[i].virtual_addr == b[i].virtual_addr
        &&& a[i].mem_size == b[i].mem_size
        &&& a[i].align == b[i].align
    }
}

proof fn lemma_same_fields(a: Seq<HeaderEntry>, b: Seq<HeaderEntry>, l: u64)
    requires
        same_layout_fields(a, b),
    ensures
        segments_fit(a, l) == segments_fit(b, l),
        lowest_load_address_of(a) == lowest_load_address_of(b),
        load_page_ranges(a, l) == load_page_ranges(b, l),
    decreases a.len(),
{
    if segments_fit(a, l) {
        assert forall|i: int| 0 <= i < b.len() && (#[trigger] b[i]).entry_type == EntryType::Load implies {
            &&& b[i].virtual_addr + b[i].mem_size <= u64::MAX
            &&& l <= b[i].virtual_addr
            &&& b[i].virtual_addr - l + b[i].mem_size <= u64::MAX
        } by {
            assert(a[i].entry_type == EntryType::Load);
        }
    }
    if segments_fit(b, l) {
        assert forall|i: int| 0 <= i < a.len() && (#[trigger] a[i]).entry_type == EntryType::Load implies {
            &&& a[i].virtual_addr + a[i].mem_size <= u64::MAX
            &&& l <= a[i].virtual_addr
            &&& a[i].virtual_addr - l + a[i].mem_size <= u64::MAX
        } by {
            assert(b[i].entry_type == EntryType::Load);
        }
    }
    if a.len() > 0 {
        assert(same_layout_fields(a.drop_last(), b.drop_last())) by {
            assert forall|i: int| 0 <= i < a.drop_last().len() implies {
                &&& (#[trigger] a.drop_last()[i]).entry_type == b.drop_last()[i].entry_type
                &&& a.drop_last()[i].virtual_addr == b.drop_last()[i].virtual_addr
                &&& a.drop_last()[i].mem_size == b.drop_last()[i].mem_size
                &&& a.drop_last()[i].align == b.drop_last()[i].align
            } by {
                assert(a.drop_last()[i] == a[i] && b.drop_last()[i] == b[i]);
            }
        }
        lemma_same_fields(a.drop_last(), b.drop_last(), l);
        assert(a.last().entry_type == b.last().entry_type);
        assert(segment_page_ranges(a.last(), l) == segment_page_ranges(b.last(), l));
    }
}

proof fn lemma_matching_headers(a: Seq<HeaderEntry>, b: Seq<HeaderEntry>, d: Seq<u8>)
    requires
        headers_match(a, d),
        headers_match(b, d),
    ensures
        same_layout_fields(a, b),
{
    assert forall|i: int| 0 <= i < a.len() implies {
        &&& (#[trigger] a[i]).entry_type == b[i].entry_type
        &&& a[i].virtual_addr == b[i].virtual_addr
        &&& a[i].mem_size == b[i].mem_size
        &&& a[i].align == b[i].align
    } by {
        assert(program_header_matches(a[i], d, ph_offset(d, i)));
        assert(program_header_matches(b[i], d, ph_offset(d, i)));
    }
}

proof fn lemma_page_bounds(x: u64, y: u64, m: u64)
    requires
        x <= y,
    ensures
        (x & m) >> 21u64 <= y >> 21u64,
        y >> 21u64 < 0x800_0000_0000,
{
    assert((x & m) >> 21u64 <= y >> 21u64 && y >> 21u64 < 0x800_0000_0000) by (bit_vector)
        requires
            x <= y,
    ;
}

/// Every run's physical pages go upwards and lie below page 2^43.
pub open spec fn phys_runs_low(s: Seq<PageRanges>) -> bool {
    forall|m: int| 0 <= m < s.len() ==> (#[trigger] s[m]).1.0 <= s[m].1.1 && s[m].1.1 < 0x800_0000_0000
}

proof fn lemma_load_phys(hs: Seq<HeaderEntry>, l: u64)
    requires
        segments_fit(hs, l),
    ensures
        phys_runs_low(load_page_ranges(hs, l)),
    decreases hs.len(),
{
    if hs.len() > 0 {
        assert(segments_fit(hs.drop_last(), l)) by {
            assert forall|i: int| 0 <= i < hs.drop_last().len() && (#[trigger] hs.drop_last()[i]).entry_type
                == EntryType::Load implies {
                &&& hs.drop_last()[i].virtual_addr + hs.drop_last()[i].mem_size <= u64::MAX
                &&& l <= hs.drop_last()[i].virtual_addr
                &&& hs.drop_last()[i].virtual_addr - l + hs.drop_last()[i].mem_size <= u64::MAX
            } by {
                assert(hs.drop_last()[i] == hs[i]);
            }
        }
        lemma_load_phys(hs.drop_last(), l);
        let seg = hs.last();
        if seg.entry_type == EntryType::Load {
            assert(hs[hs.len() - 1] == seg);
            let x: u64 = (seg.virtual_addr - l) as u64;
            let y: u64 = (x + seg.mem_size) as u64;
            lemma_page_bounds(x, y, u64::MAX << log2_floor(seg.align as nat));
        }
    }
}

proof fn lemma_merged_low(out: Seq<PageRanges>, inp: Seq<PageRanges>)
    requires
        ranges_bounds_from(out, inp),
        phys_runs_low(inp),
        phys_runs_wf(out),
    ensures
        phys_runs_low(out),
{
    reveal(ranges_bounds_from);
    assert forall|m: int| 0 <= m < out.len() implies (#[trigger] out[m]).1.0 <= out[m].1.1 && out[m].1.1
        < 0x800_0000_0000 by {
        assert(run_sourced(out[m], inp));
        let k = choose|k: int| 0 <= k < inp.len() && out[m].1.1 == (#[trigger] inp[k]).1.1;
        assert(inp[k].1.1 < 0x800_0000_0000);
    }
}

/// What `merge_page_ranges` promises of the runs `out` that it makes of the runs `inp`.
pub open spec fn merge_result(inp: Seq<PageRanges>, out: Seq<PageRanges>) -> bool {
    &&& ranges_disjoint(out)
    &&& ranges_covered(inp, out)
    &&& ranges_bounds_from(out, inp)
    &&& out.len() <= inp.len()
    &&& runs_wf(inp) ==> pages_from(out, inp)
    &&& runs_wf(inp) ==> isolated_kept(inp, out)
    &&& phys_runs_wf(inp) ==> phys_runs_wf(out)
}

/// The runs with their physical pages moved up by `off` pages.
pub open spec fn shifted(s: Seq<PageRanges>, off: int) -> Seq<PageRanges> {
    Seq::new(s.len(), |k: int| (s[k].0, ((s[k].1.0 + off) as u64, (s[k].1.1 + off) as u64)))
}

/// The kernel's offset in physical memory, in 2 MiB pages.
pub open spec fn kernel_offset_pages() -> int {
    (KERNEL_PHYSICAL_OFFSET / 0x20_0000) as int
}

/// Parses the kernel image and works out where its pages go: the 2 MiB runs of its
/// loadable segments (`kernel_page_ranges` from `lowest_load_address`), merged (see
/// `merge_page_ranges`) and moved up by the kernel's physical offset, and each
/// physical run's first page and page count. It fails exactly when the image is not
/// readable, is not an ELF file the loader takes, or has a segment whose addresses do
/// not fit in 64 bits.
pub fn lay_out_kernel(elf_bytes: &[u8]) -> (ret: Result<KernelLayout, LayoutError>)
    ensures
        ret == Err::<KernelLayout, LayoutError>(LayoutError::Unreadable) <==> !parse_in_bounds(elf_bytes@),
        ret == Err::<KernelLayout, LayoutError>(LayoutError::NotElf) <==> parse_in_bounds(elf_bytes@) && !elf_ok(
            elf_bytes@),
        forall|hs: Seq<HeaderEntry>| #[trigger] headers_match(hs, elf_bytes@) && parse_in_bounds(elf_bytes@) && elf_ok(
            elf_bytes@) ==> (ret == Err::<KernelLayout, LayoutError>(LayoutError::SegmentOverflow) <==> !segments_fit(
            hs, lowest_load_address_of(hs))),
        ret matches Ok(layout) ==> {
            &&& parse_in_bounds(elf_bytes@)
            &&& elf_ok(elf_bytes@)
            &&& layout.virt_entry == le_u64(elf_bytes@, 0x18)
            &&& forall|hs: Seq<HeaderEntry>| #[trigger] headers_match(hs, elf_bytes@) ==> {
                &&& layout.lowest_base == lowest_load_address_of(hs)
                &&& segments_fit(hs, layout.lowest_base)
                &&& exists|merged: Seq<PageRanges>| #[trigger] merge_result(load_page_ranges(hs, layout.lowest_base), merged)
                    && layout.runs@ == shifted(merged, kernel_offset_pages())
            }
            &&& layout.physical_runs@.len() == layout.runs@.len()
            &&& forall|k: int| 0 <= k < layout.runs@.len() ==> #[trigger] layout.physical_runs@[k] == (
                layout.runs@[k].1.0,
                (layout.runs@[k].1.1 - layout.runs@[k].1.0 + 1) as u64,
            ) && layout.runs@[k].1.0 <= layout.runs@[k].1.1
            &&& ranges_disjoint(layout.runs@)
        },
{
    if !Elf::readable(elf_bytes) {
        return Err(LayoutError::Unreadable);
    }
    let elf = match Elf::parse(elf_bytes) {
        Ok(elf) => elf,
        Err(_) => {
            return Err(LayoutError::NotElf);
        },
    };
    let ghost hs0 = elf.program_headers@;
    assert(headers_match(hs0, elf_bytes@));
    let lowest_base = lowest_load_address(elf.program_headers.as_slice());
    if !segments_fit_check(elf.program_headers.as_slice(), lowest_base) {
        proof {
            assert forall|hs: Seq<HeaderEntry>| #[trigger] headers_match(hs, elf_bytes@) implies !segments_fit(
                hs, lowest_load_address_of(hs)) by {
                lemma_matching_headers(hs, hs0, elf_bytes@);
                lemma_same_fields(hs, hs0, lowest_base);
            }
        }
        return Err(LayoutError::SegmentOverflow);
    }
    let mut runs = kernel_page_ranges(elf.program_headers.as_slice(), lowest_base);
    let ghost loaded = runs@;
    proof {
        lemma_load_phys(hs0, lowest_base);
        assert(phys_runs_wf(loaded));
    }
    merge_page_ranges(&mut runs);
    let ghost merged = runs@;
    proof {
        assert(merge_result(loaded, merged));
        lemma_merged_low(merged, loaded);
    }
    let offset_page: u64 = KERNEL_PHYSICAL_OFFSET / 0x20_0000;
    shift_physical_pages(&mut runs, offset_page);
    proof {
        assert(runs@ =~= shifted(merged, kernel_offset_pages()));
        assert forall|a: int, b: int| 0 <= a < b < runs@.len() implies !ranges_touch(#[trigger] runs@[a], #[trigger] runs@[b]) by {
            assert(runs@[a].0 == merged[a].0 && runs@[b].0 == merged[b].0);
            assert(!ranges_touch(merged[a], merged[b]));
        }
    }
    let mut physical_runs: Vec<(u64, u64)> = Vec::new();
    let mut k: usize = 0;
    while k < runs.len()
        invariant
            k <= runs@.len(),
            physical_runs@.len() == k,
            runs@ == shifted(merged, kernel_offset_pages()),
            phys_runs_low(merged),
            kernel_offset_pages() == 2,
            forall|j: int| 0 <= j < k ==> #[trigger] physical_runs@[j] == (runs@[j].1.0, (runs@[j].1.1 - runs@[j].1.0
                + 1) as u64),
        decreases runs@.len() - k,
    {
        let (_, (pstart, pend)) = runs[k];
        assert(merged[k as int].1.0 <= merged[k as int].1.1 && merged[k as int].1.1 < 0x800_0000_0000);
        physical_runs.push((pstart, run_page_count(pstart, pend)));
        k = k + 1;
    }
    let layout = KernelLayout { runs, physical_runs, lowest_base, virt_entry: elf.entry };
    proof {
        assert forall|hs: Seq<HeaderEntry>| #[trigger] headers_match(hs, elf_bytes@) implies {
            &&& layout.lowest_base == lowest_load_address_of(hs)
            &&& segments_fit(hs, layout.lowest_base)
            &&& exists|m: Seq<PageRanges>| #[trigger] merge_result(load_page_ranges(hs, layout.lowest_base), m)
                && layout.runs@ == shifted(m, kernel_offset_pages())
        } by {
            lemma_matching_headers(hs, hs0, elf_bytes@);
            lemma_same_fields(hs, hs0, lowest_base);
            assert(merge_result(load_page_ranges(hs, layout.lowest_base), merged));
        }
        assert forall|j: int| 0 <= j < layout.runs@.len() implies layout.runs@[j].1.0 <= layout.runs@[j].1.1 by {
            assert(merged[j].1.0 <= merged[j].1.1 && merged[j].1.1 < 0x800_0000_0000);
        }
        assert forall|hs: Seq<HeaderEntry>| #[trigger] headers_match(hs, elf_bytes@) && parse_in_bounds(elf_bytes@) && elf_ok(
            elf_bytes@) implies segments_fit(hs, lowest_load_address_of(hs)) by {
            lemma_matching_headers(hs, hs0, elf_bytes@);
            lemma_same_fields(hs, hs0, lowest_base);
        }
    }
    Ok(layout)
}

} // verus!
