//! The service aggregator: join scanned descriptors with probed daemon
//! state into list and detail views, sorted ascending by label.

use crate::byteseq::bytes_leq;
use crate::byteseq::lemma_lex_leq_total;
use crate::byteseq::lemma_lex_leq_trans;
use crate::byteseq::lex_leq;
use crate::model::LaunchdService;
use crate::model::LaunchdServiceInfo;
use crate::model::ServiceImage;
use crate::plist_store::bool_entry;
use crate::plist_store::list_entry;
use crate::plist_store::parse_descriptor_body;
use crate::plist_store::plist_bools;
use crate::plist_store::plist_is_dict;
use crate::plist_store::plist_string_lists;
use crate::plist_store::plist_strings;
use crate::plist_store::spec_label_of;
use crate::plist_store::str_entry;
use crate::plist_store::BodyError;
use crate::scan::scope_from_path;
use crate::scan::spec_scope_of_path;
use crate::scan::ScannedImage;
use crate::scan::ScannedService;
use vstd::prelude::*;
use vstd::seq_lib::group_to_multiset_ensures;
use vstd::seq_lib::lemma_multiset_commutative;
use vstd::string::StringExecFns;
use vstd::utf8::encode_utf8;

verus! {

/// What the daemon probe reported for one label: whether the load query
/// succeeded, and the pid the listing gave, if any.
#[derive(Clone, Copy, Debug)]
pub struct ProbeOutcome {
    pub loaded: bool,
    pub pid: Option<i32>,
}

/// The images of a sequence of list entries.
pub open spec fn views_of(v: Seq<LaunchdService>) -> Seq<ServiceImage> {
    v.map_values(|s: LaunchdService| s@)
}

/// The images of a sequence of scanned descriptors.
pub open spec fn scanned_views(v: Seq<ScannedService>) -> Seq<ScannedImage> {
    v.map_values(|d: ScannedService| d@)
}

/// One descriptor joined with its probe outcome: the pid counts only
/// when the label is loaded, and running means a pid is present, so a
/// running service is always a loaded one.
pub open spec fn spec_attach(d: ScannedImage, p: ProbeOutcome) -> ServiceImage {
    ServiceImage {
        label: d.label,
        path: d.path,
        scope: d.scope,
        loaded: p.loaded,
        running: p.loaded && p.pid is Some,
        pid: if p.loaded {
            p.pid
        } else {
            None
        },
    }
}

/// Descriptors joined pairwise with their probe outcomes.
pub open spec fn spec_join(ds: Seq<ScannedImage>, ps: Seq<ProbeOutcome>) -> Seq<ServiceImage> {
    Seq::new(ds.len(), |i: int| spec_attach(ds[i], ps[i]))
}

/// Every joined view satisfies the reconciliation invariant: a running
/// service is a loaded one, whatever the probe reported.
pub proof fn lemma_join_running_implies_loaded(ds: Seq<ScannedImage>, ps: Seq<ProbeOutcome>)
    ensures
        forall|k: int|
            0 <= k < spec_join(ds, ps).len() ==> ((#[trigger] spec_join(ds, ps)[k]).running
                ==> spec_join(ds, ps)[k].loaded),
{
}

/// List order: byte-wise lexicographic order of the labels.
pub open spec fn spec_label_leq(a: ServiceImage, b: ServiceImage) -> bool {
    lex_leq(encode_utf8(a.label), encode_utf8(b.label))
}

/// Sorted ascending by label.
pub open spec fn spec_sorted(s: Seq<ServiceImage>) -> bool {
    forall|i: int, j: int|
        0 <= i < j < s.len() ==> spec_label_leq(#[trigger] s[i], #[trigger] s[j])
}

/// Insertion into a label-sorted sequence, after any equal labels, as a
/// stable sort places it.
pub open spec fn spec_sorted_insert(s: Seq<ServiceImage>, v: ServiceImage) -> Seq<ServiceImage>
    decreases s.len(),
{
    if s.len() == 0 {
        seq![v]
    } else if spec_label_leq(s[0], v) {
        seq![s[0]] + spec_sorted_insert(s.drop_first(), v)
    } else {
        seq![v] + s
    }
}

/// The stable insertion sort of the joined views by label.
pub open spec fn spec_sort(s: Seq<ServiceImage>) -> Seq<ServiceImage>
    decreases s.len(),
{
    if s.len() == 0 {
        Seq::empty()
    } else {
        spec_sorted_insert(spec_sort(s.drop_last()), s.last())
    }
}

proof fn lemma_sorted_insert_multiset(s: Seq<ServiceImage>, v: ServiceImage)
    ensures
        spec_sorted_insert(s, v).to_multiset() =~= s.to_multiset().insert(v),
    decreases s.len(),
{
    broadcast use group_to_multiset_ensures;
    broadcast use vstd::multiset::group_multiset_axioms;

    if s.len() == 0 {
        assert(seq![v] =~= Seq::<ServiceImage>::empty().push(v));
    } else if spec_label_leq(s[0], v) {
        lemma_sorted_insert_multiset(s.drop_first(), v);
        lemma_multiset_commutative(seq![s[0]], spec_sorted_insert(s.drop_first(), v));
        lemma_multiset_commutative(seq![s[0]], s.drop_first());
        assert(s =~= seq![s[0]] + s.drop_first());
        assert(seq![s[0]].to_multiset() =~= Seq::<ServiceImage>::empty().push(s[0]).to_multiset());
    } else {
        lemma_multiset_commutative(seq![v], s);
        assert(seq![v].to_multiset() =~= Seq::<ServiceImage>::empty().push(v).to_multiset());
    }
}

proof fn lemma_sorted_insert_sorted(s: Seq<ServiceImage>, v: ServiceImage)
    requires
        spec_sorted(s),
    ensures
        spec_sorted(spec_sorted_insert(s, v)),
    decreases s.len(),
{
    broadcast use group_to_multiset_ensures;
    broadcast use vstd::multiset::group_multiset_axioms;

    let r = spec_sorted_insert(s, v);
    if s.len() == 0 {
    } else if spec_label_leq(s[0], v) {
        let rest = s.drop_first();
        assert(spec_sorted(rest)) by {
            assert(forall|i: int, j: int|
                0 <= i < j < rest.len() ==> spec_label_leq(#[trigger] rest[i], #[trigger] rest[j]))
                by {
                assert(forall|i: int| 0 <= i < rest.len() ==> rest[i] == s[i + 1]);
            }
        }
        lemma_sorted_insert_sorted(rest, v);
        lemma_sorted_insert_multiset(rest, v);
        let t = spec_sorted_insert(rest, v);
        assert forall|k: int| 0 <= k < t.len() implies spec_label_leq(s[0], t[k]) by {
            assert(t.contains(t[k]));
            if t[k] == v {
            } else {
                assert(t.to_multiset().count(t[k]) > 0);
                assert(rest.to_multiset().count(t[k]) > 0);
                assert(rest.contains(t[k]));
                let i = choose|i: int| 0 <= i < rest.len() && rest[i] == t[k];
                assert(s[i + 1] == t[k]);
                assert(spec_label_leq(s[0], s[i + 1]));
            }
        }
        assert forall|i: int, j: int| 0 <= i < j < r.len() implies spec_label_leq(
            r[i],
            r[j],
        ) by {
            if i == 0 {
                assert(r[j] == t[j - 1]);
            } else {
                assert(r[i] == t[i - 1]);
                assert(r[j] == t[j - 1]);
            }
        }
    } else {
        lemma_lex_leq_total(encode_utf8(s[0].label), encode_utf8(v.label));
        assert(spec_label_leq(v, s[0]));
        assert forall|i: int, j: int| 0 <= i < j < r.len() implies spec_label_leq(
            r[i],
            r[j],
        ) by {
            if i == 0 {
                assert(r[j] == s[j - 1]);
                if j - 1 > 0 {
                    assert(spec_label_leq(s[0], s[j - 1]));
                    lemma_lex_leq_trans(
                        encode_utf8(v.label),
                        encode_utf8(s[0].label),
                        encode_utf8(s[j - 1].label),
                    );
                }
            } else {
                assert(r[i] == s[i - 1]);
                assert(r[j] == s[j - 1]);
            }
        }
    }
}

/// The sort of the joined views is sorted ascending by label.
pub proof fn lemma_sort_sorted(s: Seq<ServiceImage>)
    ensures
        spec_sorted(spec_sort(s)),
    decreases s.len(),
{
    if s.len() > 0 {
        lemma_sort_sorted(s.drop_last());
        lemma_sorted_insert_sorted(spec_sort(s.drop_last()), s.last());
    }
}

/// The sort of the joined views keeps exactly the joined views: one
/// entry per descriptor, none added, none dropped.
pub proof fn lemma_sort_multiset(s: Seq<ServiceImage>)
    ensures
        spec_sort(s).to_multiset() =~= s.to_multiset(),
    decreases s.len(),
{
    broadcast use group_to_multiset_ensures;
    broadcast use vstd::multiset::group_multiset_axioms;

    if s.len() > 0 {
        lemma_sort_multiset(s.drop_last());
        lemma_sorted_insert_multiset(spec_sort(s.drop_last()), s.last());
        assert(s =~= s.drop_last().push(s.last()));
    }
}

proof fn lemma_sorted_insert_len(s: Seq<ServiceImage>, v: ServiceImage)
    ensures
        spec_sorted_insert(s, v).len() == s.len() + 1,
    decreases s.len(),
{
    if s.len() > 0 && spec_label_leq(s[0], v) {
        lemma_sorted_insert_len(s.drop_first(), v);
    }
}

proof fn lemma_sort_len(s: Seq<ServiceImage>)
    ensures
        spec_sort(s).len() == s.len(),
    decreases s.len(),
{
    if s.len() > 0 {
        lemma_sort_len(s.drop_last());
        lemma_sorted_insert_len(spec_sort(s.drop_last()), s.last());
    }
}

proof fn lemma_insert_at(s: Seq<ServiceImage>, v: ServiceImage, j: int)
    requires
        0 <= j <= s.len(),
        forall|k: int| 0 <= k < j ==> spec_label_leq(#[trigger] s[k], v),
        j < s.len() ==> !spec_label_leq(s[j], v),
    ensures
        spec_sorted_insert(s, v) == s.insert(j, v),
    decreases j,
{
    if j == 0 {
        if s.len() == 0 {
            assert(seq![v] =~= s.insert(0, v));
        } else {
            assert(seq![v] + s =~= s.insert(0, v));
        }
    } else {
        let rest = s.drop_first();
        assert(forall|k: int| 0 <= k < j - 1 ==> spec_label_leq(#[trigger] rest[k], v)) by {
            assert(forall|k: int| 0 <= k < rest.len() ==> rest[k] == s[k + 1]);
        }
        assert(j - 1 < rest.len() ==> !spec_label_leq(rest[j - 1], v));
        lemma_insert_at(rest, v, j - 1);
        assert(seq![s[0]] + rest.insert(j - 1, v) =~= s.insert(j, v));
    }
}

/// Label comparison for the list order.
fn label_leq(a: &str, b: &str) -> (r: bool)
    ensures
        r == lex_leq(encode_utf8(a@), encode_utf8(b@)),
{
    bytes_leq(a.as_bytes(), b.as_bytes())
}

fn insert_position(out: &Vec<LaunchdService>, v: &LaunchdService) -> (j: usize)
    ensures
        j <= out@.len(),
        forall|k: int| 0 <= k < j ==> spec_label_leq(#[trigger] views_of(out@)[k], v@),
        j < out@.len() ==> !spec_label_leq(views_of(out@)[j as int], v@),
{
    let n = out.len();
    let mut j: usize = 0;
    while j < n
        invariant
            j <= n,
            n == out@.len(),
            forall|k: int| 0 <= k < j ==> spec_label_leq(#[trigger] views_of(out@)[k], v@),
        decreases n - j,
    {
        if !label_leq(out[j].label.as_str(), v.label.as_str()) {
            proof {
                assert(views_of(out@)[j as int] == out@[j as int]@);
            }
            return j;
        }
        proof {
            assert(views_of(out@)[j as int] == out@[j as int]@);
        }
        j = j + 1;
    }
    j
}

#[verifier::loop_isolation(false)]
fn sorted_insert(out: &mut Vec<LaunchdService>, v: LaunchdService)
    ensures
        views_of(final (out)@) == spec_sorted_insert(views_of(old(out)@), v@),
{
    let ghost s0 = views_of(old(out)@);
    let j = insert_position(out, &v);
    let ghost vg = v@;
    out.insert(j, v);
    proof {
        lemma_insert_at(s0, vg, j as int);
        assert(views_of(out@) =~= s0.insert(j as int, vg));
    }
}

/// Build the list view: join each scanned descriptor with its probe
/// outcome, then sort ascending by label. The result holds exactly one
/// entry per scanned descriptor, in sorted order, and in every entry a
/// running service is a loaded one.
#[verifier::loop_isolation(false)]
pub fn get_launchd_services(scanned: &Vec<ScannedService>, probes: &Vec<ProbeOutcome>) -> (r:
    Result<Vec<LaunchdService>, String>)
    requires
        scanned@.len() == probes@.len(),
    ensures
        r is Ok,
        r matches Ok(v) ==> views_of(v@) == spec_sort(spec_join(scanned_views(scanned@), probes@)),
        r matches Ok(v) ==> spec_sorted(views_of(v@)),
        r matches Ok(v) ==> views_of(v@).to_multiset() == spec_join(
            scanned_views(scanned@),
            probes@,
        ).to_multiset(),
        r matches Ok(v) ==> v@.len() == scanned@.len(),
        r matches Ok(v) ==> forall|k: int|
            0 <= k < v@.len() ==> ((#[trigger] v@[k])@.running ==> v@[k]@.loaded),
{
    let ghost joined = spec_join(scanned_views(scanned@), probes@);
    let n = scanned.len();
    let mut out: Vec<LaunchdService> = Vec::new();
    proof {
        assert(views_of(out@) =~= spec_sort(joined.take(0)));
    }
    let mut i: usize = 0;
    while i < n
        invariant
            i <= n,
            views_of(out@) == spec_sort(joined.take(i as int)),
        decreases n - i,
    {
        let d = &scanned[i];
        let p = probes[i];
        let pid = if p.loaded {
            p.pid
        } else {
            None
        };
        let svc = LaunchdService {
            label: d.label.clone(),
            path: d.path.clone(),
            scope: d.scope,
            loaded: p.loaded,
            running: pid.is_some(),
            pid,
        };
        proof {
            assert(scanned_views(scanned@)[i as int] == d@);
            assert(svc@ == spec_attach(d@, p));
            assert(joined[i as int] == spec_attach(d@, p));
            assert(joined.take(i as int + 1).drop_last() =~= joined.take(i as int));
            assert(joined.take(i as int + 1).last() == joined[i as int]);
        }
        sorted_insert(&mut out, svc);
        i = i + 1;
    }
    proof {
        assert(joined.take(n as int) =~= joined);
        lemma_sort_sorted(joined);
        lemma_sort_multiset(joined);
        lemma_sort_len(joined);
        broadcast use group_to_multiset_ensures;
        broadcast use vstd::multiset::group_multiset_axioms;

        assert forall|k: int| 0 <= k < out@.len() implies ((#[trigger] out@[k])@.running
            ==> out@[k]@.loaded) by {
            let x = views_of(out@)[k];
            assert(x == out@[k]@);
            assert(views_of(out@).contains(x));
            assert(views_of(out@).to_multiset().count(x) > 0);
            assert(joined.to_multiset().count(x) > 0);
            assert(joined.contains(x));
            let w = choose|w: int| 0 <= w < joined.len() && joined[w] == x;
            assert(joined[w].running ==> joined[w].loaded);
        }
    }
    Ok(out)
}

/// Two list builds over the same descriptors and the same probe
/// outcomes yield identical views, order and content: the list is a
/// function of what the scan and the probe saw.
pub proof fn lemma_list_deterministic(
    ds1: Seq<ScannedImage>,
    ps1: Seq<ProbeOutcome>,
    ds2: Seq<ScannedImage>,
    ps2: Seq<ProbeOutcome>,
)
    requires
        ds1 == ds2,
        ps1 == ps2,
    ensures
        spec_sort(spec_join(ds1, ps1)) == spec_sort(spec_join(ds2, ps2)),
{
}

/// Read the detail view of one descriptor reached directly by path. The
/// caller reads the file and passes its bytes, or nothing when there is
/// no such file; the daemon state is attached afterwards with
/// `with_daemon_state`.
pub fn get_launchd_service_info(path: &str, bytes: &Option<Vec<u8>>) -> (r: Result<
    LaunchdServiceInfo,
    String,
>)
    ensures
        r is Ok <==> (bytes matches Some(b) && spec_label_of(b@) is Some),
        bytes is None ==> (r matches Err(e) && e@ == "Plist file not found: "@ + path@),
        bytes matches Some(b) && !plist_is_dict(b@) ==> (r matches Err(e) && (e@
            == "Invalid plist format: expected dictionary"@ || exists|t: Seq<char>|
            e@ == "Failed to parse plist: "@ + t)),
        bytes matches Some(b) && plist_is_dict(b@) && !plist_strings(b@).contains_key("Label"@)
            ==> (r matches Err(e) && e@ == "Missing Label in plist"@),
        bytes matches Some(b) ==> spec_label_of(b@) matches Some(l) ==> (r matches Ok(info)
            && info@.label == l && info@.path == path@ && info@.scope == spec_scope_of_path(path@)
            && info@.loaded == false && info@.running == false && info@.pid is None
            && info@.program == str_entry(plist_strings(b@), "Program"@)
            && info@.program_arguments == list_entry(plist_string_lists(b@), "ProgramArguments"@)
            && info@.run_at_load == bool_entry(plist_bools(b@), "RunAtLoad"@)
            && info@.keep_alive == bool_entry(plist_bools(b@), "KeepAlive"@)
            && info@.working_directory == str_entry(plist_strings(b@), "WorkingDirectory"@)
            && info@.standard_out_path == str_entry(plist_strings(b@), "StandardOutPath"@)
            && info@.standard_error_path == str_entry(plist_strings(b@), "StandardErrorPath"@)),
{
    let b = match bytes {
        Some(b) => b,
        None => {
            return Err(String::from_str("Plist file not found: ").concat(path));
        },
    };
    match parse_descriptor_body(b.as_slice()) {
        Err(BodyError::Unreadable(m)) => Err(
            String::from_str("Failed to parse plist: ").concat(m.as_str()),
        ),
        Err(BodyError::NotDictionary) => Err(
            String::from_str("Invalid plist format: expected dictionary"),
        ),
        Err(BodyError::MissingLabel) => Err(String::from_str("Missing Label in plist")),
        Ok((label, body)) => {
            let info = LaunchdServiceInfo {
                label,
                path: String::from_str(path),
                scope: scope_from_path(path),
                loaded: false,
                running: false,
                pid: None,
                program: body.program,
                program_arguments: body.program_arguments,
                run_at_load: body.run_at_load,
                keep_alive: body.keep_alive,
                working_directory: body.working_directory,
                standard_out_path: body.standard_out_path,
                standard_error_path: body.standard_error_path,
            };
            Ok(info)
        },
    }
}

/// Attach probed daemon state to a detail view: the descriptor fields
/// stay as they are, the pid counts only when the label is loaded, and
/// a running service is always a loaded one.
pub fn with_daemon_state(info: LaunchdServiceInfo, loaded: bool, pid_probe: Option<i32>) -> (r:
    LaunchdServiceInfo)
    ensures
        r@.label == info@.label,
        r@.path == info@.path,
        r@.scope == info@.scope,
        r@.program == info@.program,
        r@.program_arguments == info@.program_arguments,
        r@.run_at_load == info@.run_at_load,
        r@.keep_alive == info@.keep_alive,
        r@.working_directory == info@.working_directory,
        r@.standard_out_path == info@.standard_out_path,
        r@.standard_error_path == info@.standard_error_path,
        r@.loaded == loaded,
        r@.pid == (if loaded {
            pid_probe
        } else {
            None
        }),
        r@.running == (loaded && pid_probe is Some),
        r@.running ==> r@.loaded,
{
    let pid = if loaded {
        pid_probe
    } else {
        None
    };
    LaunchdServiceInfo {
        loaded,
        running: pid.is_some(),
        pid,
        label: info.label,
        path: info.path,
        scope: info.scope,
        program: info.program,
        program_arguments: info.program_arguments,
        run_at_load: info.run_at_load,
        keep_alive: info.keep_alive,
        working_directory: info.working_directory,
        standard_out_path: info.standard_out_path,
        standard_error_path: info.standard_error_path,
    }
}

} // verus!
