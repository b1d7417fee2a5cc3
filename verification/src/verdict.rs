use vstd::prelude::*;

verus! {

/// Why a test program run counts as failed.
#[derive(Clone, Copy, Debug, PartialEq, Eq, Structural)]
pub enum FailReason {
    /// The emulator exited unsuccessfully, with this exit code (-1 when there was none).
    NonZeroExit(i32),
    /// The emulator exited successfully but its output holds a failure marker.
    MarkerInOutput,
    /// The emulator could not be started.
    SpawnFailed,
}

/// Whether `needle` occurs in `hay`.
pub open spec fn occurs_in(hay: Seq<u8>, needle: Seq<u8>) -> bool {
    exists|i: int| 0 <= i <= hay.len() - needle.len() && #[trigger] hay.subrange(i, i + needle.len()) == needle
}

/// The verdict on a run of a test program: an unsuccessful exit fails it; otherwise it fails
/// when one of `markers` occurs in its standard error and standard output joined by a newline.
pub open spec fn verdict_spec(success: bool, code: i32, stdout: Seq<u8>, stderr: Seq<u8>, markers: Seq<Seq<u8>>) -> Option<FailReason> {
    if !success {
        Some(FailReason::NonZeroExit(code))
    } else if exists|k: int| 0 <= k < markers.len() && occurs_in(stderr + seq![10u8] + stdout, #[trigger] markers[k]) {
        Some(FailReason::MarkerInOutput)
    } else {
        None
    }
}

/// The byte strings that `markers` hold.
pub open spec fn marker_views(markers: Seq<Vec<u8>>) -> Seq<Seq<u8>> {
    markers.map_values(|m: Vec<u8>| m@)
}

/// Whether `needle` occurs in `hay` at position `i`.
fn occurs_at(hay: &Vec<u8>, needle: &Vec<u8>, i: usize) -> (b: bool)
    requires
        i + needle@.len() <= hay@.len(),
    ensures
        b == (hay@.subrange(i as int, i + needle@.len()) == needle@),
{
    let hay_len = hay.len();
    let mut j: usize = 0;
    while j < needle.len()
        invariant
            hay_len == hay@.len(),
            i + needle@.len() <= hay@.len(),
            j <= needle@.len(),
            forall|k: int| 0 <= k < j ==> hay@[i + k] == needle@[k],
        decreases needle@.len() - j,
    {
        if hay[i + j] != needle[j] {
            assert(hay@.subrange(i as int, i + needle@.len())[j as int] != needle@[j as int]);
            return false;
        }
        j = j + 1;
    }
    assert(hay@.subrange(i as int, i + needle@.len()) =~= needle@);
    true
}

/// Whether `needle` occurs in `hay`.
fn contains_bytes(hay: &Vec<u8>, needle: &Vec<u8>) -> (b: bool)
    ensures
        b == occurs_in(hay@, needle@),
{
    if needle.len() > hay.len() {
        return false;
    }
    let last = hay.len() - needle.len();
    let mut i: usize = 0;
    loop
        invariant
            last == hay@.len() - needle@.len(),
            needle@.len() <= hay@.len(),
            i <= last,
            forall|p: int| 0 <= p < i ==> #[trigger] hay@.subrange(p, p + needle@.len()) != needle@,
        decreases last - i,
    {
        if occurs_at(hay, needle, i) {
            return true;
        }
        if i == last {
            return false;
        }
        i = i + 1;
    }
}

/// The verdict on a run of a test program that exited with `success` and exit code `code`
/// and printed `stdout` and `stderr`: an unsuccessful exit fails it; otherwise any of
/// `markers` in its output fails it.
pub fn run_verdict(
    success: bool,
    code: i32,
    stdout: &[u8],
    stderr: &[u8],
    markers: &Vec<Vec<u8>>,
) -> (r: Option<FailReason>)
    ensures
        r == verdict_spec(success, code, stdout@, stderr@, marker_views(markers@)),
{
    let ghost ms = marker_views(markers@);
    if !success {
        return Some(FailReason::NonZeroExit(code));
    }
    let mut hay: Vec<u8> = Vec::new();
    let mut i: usize = 0;
    while i < stderr.len()
        invariant
            i <= stderr@.len(),
            hay@ == stderr@.subrange(0, i as int),
        decreases stderr@.len() - i,
    {
        hay.push(stderr[i]);
        assert(hay@ =~= stderr@.subrange(0, i + 1));
        i = i + 1;
    }
    hay.push(10u8);
    let ghost prefix = hay@;
    assert(prefix =~= stderr@ + seq![10u8]);
    let mut i: usize = 0;
    while i < stdout.len()
        invariant
            i <= stdout@.len(),
            hay@ == prefix + stdout@.subrange(0, i as int),
        decreases stdout@.len() - i,
    {
        hay.push(stdout[i]);
        assert(hay@ =~= prefix + stdout@.subrange(0, i + 1));
        i = i + 1;
    }
    assert(hay@ =~= stderr@ + seq![10u8] + stdout@);
    let mut k: usize = 0;
    while k < markers.len()
        invariant
            success,
            k <= markers@.len(),
            ms == marker_views(markers@),
            hay@ == stderr@ + seq![10u8] + stdout@,
            forall|q: int| 0 <= q < k ==> !occurs_in(hay@, #[trigger] ms[q]),
        decreases markers@.len() - k,
    {
        if contains_bytes(&hay, &markers[k]) {
            assert(ms.len() == markers@.len());
            assert(occurs_in(stderr@ + seq![10u8] + stdout@, ms[k as int]));
            return Some(FailReason::MarkerInOutput);
        }
        k = k + 1;
    }
    None
}

/// The markers that fail a run unless more are given: "Test failed" and "panic", as bytes.
pub open spec fn default_markers_spec() -> Seq<Seq<u8>> {
    seq![seq![84u8, 101u8, 115u8, 116u8, 32u8, 102u8, 97u8, 105u8, 108u8, 101u8, 100u8], seq![112u8, 97u8, 110u8, 105u8, 99u8]]
}

/// The markers that fail a run unless more are given ("Test failed" and "panic").
pub fn default_markers() -> (m: Vec<Vec<u8>>)
    ensures
        marker_views(m@) == default_markers_spec(),
{
    let m = vec![vec![84u8, 101u8, 115u8, 116u8, 32u8, 102u8, 97u8, 105u8, 108u8, 101u8, 100u8], vec![112u8, 97u8, 110u8, 105u8, 99u8]];
    assert(marker_views(m@) =~= default_markers_spec());
    m
}

/// The verdict on a test program whose run was attempted: a run that could not be started
/// fails; otherwise `run_verdict` decides.
pub fn outcome_verdict(
    spawned: bool,
    success: bool,
    code: i32,
    stdout: &[u8],
    stderr: &[u8],
    markers: &Vec<Vec<u8>>,
) -> (r: Option<FailReason>)
    ensures
        r == (if spawned {
            verdict_spec(success, code, stdout@, stderr@, marker_views(markers@))
        } else {
            Some(FailReason::SpawnFailed)
        }),
{
    if !spawned {
        return Some(FailReason::SpawnFailed);
    }
    run_verdict(success, code, stdout, stderr, markers)
}

/// Whether the log of a test with verdict `v` is written: always for a failed test, and for a
/// passed one only when passed tests' logs are kept.
pub fn log_written(v: Option<FailReason>, keep_pass_logs: bool) -> (b: bool)
    ensures
        b == (v is Some || keep_pass_logs),
{
    v.is_some() || keep_pass_logs
}

/// The number of failed tests among `vs`.
pub open spec fn failed_count(vs: Seq<Option<FailReason>>) -> nat
    decreases vs.len(),
{
    if vs.len() == 0 {
        0
    } else {
        failed_count(vs.drop_last()) + if vs.last() is Some { 1nat } else { 0nat }
    }
}

proof fn lemma_failed_count(vs: Seq<Option<FailReason>>)
    ensures
        failed_count(vs) <= vs.len(),
        failed_count(vs) > 0 <==> exists|i: int| 0 <= i < vs.len() && #[trigger] vs[i] is Some,
    decreases vs.len(),
{
    if vs.len() > 0 {
        let d = vs.drop_last();
        lemma_failed_count(d);
        if failed_count(d) > 0 {
            let i = choose|i: int| 0 <= i < d.len() && #[trigger] d[i] is Some;
            assert(vs[i] is Some);
        }
        if vs.last() is Some {
            assert(vs[vs.len() - 1] is Some);
        }
        assert forall|i: int| 0 <= i < vs.len() && #[trigger] vs[i] is Some implies failed_count(
            vs,
        ) > 0 by {
            if i < vs.len() - 1 {
                assert(d[i] is Some);
            }
        }
    }
}

/// The counts of one suite: how many of its tests passed and how many failed.
pub fn tally(vs: &Vec<Option<FailReason>>) -> (t: (usize, usize))
    ensures
        t.1 == failed_count(vs@),
        t.0 + t.1 == vs@.len(),
        t.1 > 0 <==> exists|i: int| 0 <= i < vs@.len() && #[trigger] vs@[i] is Some,
{
    let mut passed: usize = 0;
    let mut failed: usize = 0;
    let mut i: usize = 0;
    while i < vs.len()
        invariant
            i <= vs@.len(),
            failed == failed_count(vs@.subrange(0, i as int)),
            passed + failed == i,
        decreases vs@.len() - i,
    {
        assert(vs@.subrange(0, i + 1).drop_last() =~= vs@.subrange(0, i as int));
        if vs[i].is_some() {
            failed = failed + 1;
        } else {
            passed = passed + 1;
        }
        i = i + 1;
    }
    assert(vs@.subrange(0, i as int) =~= vs@);
    proof {
        lemma_failed_count(vs@);
    }
    (passed, failed)
}

/// The result of a whole run over the suites with counts `tallies` (passed, failed): an error
/// exactly when some test failed.
pub fn run_result(tallies: &Vec<(usize, usize)>) -> (r: Result<(), ()>)
    ensures
        r is Err <==> exists|i: int| 0 <= i < tallies@.len() && #[trigger] tallies@[i].1 > 0,
{
    let mut i: usize = 0;
    while i < tallies.len()
        invariant
            i <= tallies@.len(),
            forall|j: int| 0 <= j < i ==> #[trigger] tallies@[j].1 == 0,
        decreases tallies@.len() - i,
    {
        if tallies[i].1 > 0 {
            return Err(());
        }
        i = i + 1;
    }
    Ok(())
}

} // verus!
