//! The resolve → dedup/filter → scan-dispatch → remap pipeline. The stages
//! here decide everything the run does between the outside fan-outs: which
//! resolver addresses are usable, which distinct resolved addresses are
//! scanned, how one scan outcome is reduced to its open ports, and how the
//! per-address results fan back out onto every target.

use crate::errors::PipelineError;
use crate::ipv4::{is_eligible_address, parse_ipv4, spec_eligible, spec_parse_ipv4, Ipv4};
use crate::misc::contains_string;
use crate::structs::{clone_ports, Port, ResolvData};
use crate::text::str_views;
use vstd::prelude::*;

verus! {

use vstd::string::StringExecFns;

broadcast use vstd::string::group_string_axioms;

/// The address views of per-target records, in record order.
pub open spec fn record_ips(records: Seq<(String, ResolvData)>) -> Seq<Seq<char>> {
    records.map_values(|r: (String, ResolvData)| r.1.ip@)
}

/// Parses every entry of the resolver list as an IPv4 address. The first
/// entry that does not parse is a configuration error that ends the run.
pub fn create_resolvers(resolvers: &Vec<String>) -> (r: Result<Vec<Ipv4>, PipelineError>)
    ensures
        match r {
            Ok(ips) => {
                &&& ips@.len() == resolvers@.len()
                &&& forall|k: int|
                    0 <= k < resolvers@.len() ==> spec_parse_ipv4(#[trigger] resolvers@[k]@)
                        == Some(ips@[k])
            },
            Err(e) => {
                &&& e matches PipelineError::UnparsableResolverAddress(s) && exists|k: int|
                    {
                        &&& 0 <= k < resolvers@.len()
                        &&& s@ == #[trigger] resolvers@[k]@
                        &&& spec_parse_ipv4(resolvers@[k]@) is None
                        &&& forall|j: int|
                            0 <= j < k ==> spec_parse_ipv4(#[trigger] resolvers@[j]@) is Some
                    }
            },
        },
{
    let mut ips: Vec<Ipv4> = Vec::new();
    let mut i: usize = 0;
    while i < resolvers.len()
        invariant
            i <= resolvers.len(),
            ips@.len() == i,
            forall|k: int|
                0 <= k < i ==> spec_parse_ipv4(#[trigger] resolvers@[k]@) == Some(ips@[k]),
        decreases resolvers.len() - i,
    {
        match parse_ipv4(resolvers[i].as_str()) {
            Some(ip) => {
                ips.push(ip);
            },
            None => {
                return Err(PipelineError::UnparsableResolverAddress(resolvers[i].clone()));
            },
        }
        i = i + 1;
    }
    Ok(ips)
}

/// The lookup name for a target: the target with a trailing dot.
pub fn fqdn_of(target: &String) -> (r: String)
    ensures
        r@ == target@.push('.'),
{
    proof {
        reveal_strlit(".");
    }
    let mut r = target.clone();
    r.append(".");
    proof {
        assert(target@ + "."@ =~= target@.push('.'));
    }
    r
}

/// The path of the transient scan artifact for an address.
pub fn artifact_path(logs_dir: &String, ip: &String) -> (r: String)
    ensures
        r@ == logs_dir@ + "/"@ + ip@ + ".xml"@,
{
    let mut r = logs_dir.clone();
    r.append("/");
    r.append(ip.as_str());
    r.append(".xml");
    r
}

/// Builds a per-target record from one finished lookup: the resolved address,
/// or the empty sentinel when the lookup failed, and no port data yet.
pub fn resolution_record(target: String, ip: String) -> (r: (String, ResolvData))
    ensures
        r.0@ == target@,
        r.1.ip@ == ip@,
        r.1.ports_data@ == Seq::<Port>::empty(),
{
    (target, ResolvData { ip, ports_data: Vec::new() })
}

/// Selects the distinct eligible addresses of the records: each is scanned
/// exactly once. A run in which nothing is eligible is fatal.
pub fn scan_plan(records: &Vec<(String, ResolvData)>) -> (r: Result<
    Vec<String>,
    PipelineError,
>)
    ensures
        match r {
            Ok(plan) => {
                &&& str_views(plan@).no_duplicates()
                &&& plan@.len() > 0
                &&& forall|i: int|
                    0 <= i < plan@.len() ==> spec_eligible(#[trigger] str_views(plan@)[i])
                &&& forall|i: int|
                    0 <= i < plan@.len() ==> record_ips(records@).contains(
                        #[trigger] str_views(plan@)[i],
                    )
                &&& forall|ip: Seq<char>|
                    #[trigger] record_ips(records@).contains(ip) && spec_eligible(ip)
                        ==> str_views(plan@).contains(ip)
            },
            Err(e) => {
                &&& e == PipelineError::NoEligibleAddresses
                &&& forall|ip: Seq<char>|
                    #[trigger] record_ips(records@).contains(ip) ==> !spec_eligible(ip)
            },
        },
{
    let mut plan: Vec<String> = Vec::new();
    let mut k: usize = 0;
    proof {
        assert(records@.take(0) =~= Seq::<(String, ResolvData)>::empty());
    }
    while k < records.len()
        invariant
            k <= records.len(),
            str_views(plan@).no_duplicates(),
            forall|i: int| 0 <= i < plan@.len() ==> spec_eligible(#[trigger] str_views(plan@)[i]),
            forall|i: int|
                0 <= i < plan@.len() ==> record_ips(records@).contains(
                    #[trigger] str_views(plan@)[i],
                ),
            forall|ip: Seq<char>|
                #[trigger] record_ips(records@.take(k as int)).contains(ip) && spec_eligible(ip)
                    ==> str_views(plan@).contains(ip),
        decreases records.len() - k,
    {
        let ghost prev = plan@;
        let ghost prev_ips = record_ips(records@.take(k as int));
        let ghost cur_ips = record_ips(records@.take(k + 1));
        proof {
            assert(cur_ips =~= prev_ips.push(records@[k as int].1.ip@));
        }
        let ip = &records[k].1.ip;
        let eligible = is_eligible_address(ip);
        if eligible {
            let seen = contains_string(&plan, ip);
            if !seen {
                plan.push(ip.clone());
                proof {
                    assert(str_views(plan@) =~= str_views(prev).push(ip@));
                    assert(forall|j: int|
                        0 <= j < str_views(prev).len() ==> #[trigger] str_views(prev)[j] != ip@);
                    assert(record_ips(records@)[k as int] == ip@);
                    assert(record_ips(records@).contains(ip@));
                    assert forall|x: Seq<char>|
                        #[trigger] cur_ips.contains(x) && spec_eligible(x) implies str_views(
                        plan@,
                    ).contains(x) by {
                        if x == ip@ {
                            assert(str_views(plan@)[str_views(plan@).len() - 1] == x);
                            assert(str_views(plan@).contains(x));
                        } else {
                            let j = choose|j: int| 0 <= j < cur_ips.len() && cur_ips[j] == x;
                            assert(j < prev_ips.len());
                            assert(prev_ips[j] == x);
                            assert(prev_ips.contains(x));
                            let m = choose|m: int|
                                0 <= m < str_views(prev).len() && str_views(prev)[m] == x;
                            assert(str_views(plan@)[m] == x);
                            assert(str_views(plan@).contains(x));
                        }
                    }
                }
            } else {
                proof {
                    assert forall|x: Seq<char>|
                        #[trigger] cur_ips.contains(x) && spec_eligible(x) implies str_views(
                        plan@,
                    ).contains(x) by {
                        if x == ip@ {
                        } else {
                            let j = choose|j: int| 0 <= j < cur_ips.len() && cur_ips[j] == x;
                            assert(j < prev_ips.len());
                            assert(prev_ips[j] == x);
                            assert(prev_ips.contains(x));
                        }
                    }
                }
            }
        } else {
            proof {
                assert forall|x: Seq<char>|
                    #[trigger] cur_ips.contains(x) && spec_eligible(x) implies str_views(
                    plan@,
                ).contains(x) by {
                    let j = choose|j: int| 0 <= j < cur_ips.len() && cur_ips[j] == x;
                    assert(j < prev_ips.len());
                    assert(prev_ips[j] == x);
                    assert(prev_ips.contains(x));
                }
            }
        }
        k = k + 1;
    }
    proof {
        assert(records@.take(records@.len() as int) =~= records@);
    }
    if plan.is_empty() {
        proof {
            assert forall|ip: Seq<char>|
                #[trigger] record_ips(records@).contains(ip) implies !spec_eligible(ip) by {
                if spec_eligible(ip) {
                    assert(str_views(plan@).contains(ip));
                }
            }
        }
        Err(PipelineError::NoEligibleAddresses)
    } else {
        Ok(plan)
    }
}

/// What one scan invocation produced: the raw port list of a completed scan,
/// or a failure (process error or unparsable artifact).
#[derive(Debug)]
pub enum ScanOutcome {
    Completed(Vec<Port>),
    Failed,
}

/// Whether a port is reported in the open state.
pub open spec fn spec_is_open(p: Port) -> bool {
    p.state.state@ == "open"@
}

/// The open-port predicate as a value, shared by every filter application.
pub open spec fn open_pred() -> spec_fn(Port) -> bool {
    |p: Port| spec_is_open(p)
}

/// The open ports of a raw scan result, in order.
pub open spec fn spec_open_ports(ps: Seq<Port>) -> Seq<Port> {
    ps.filter(open_pred())
}

/// The ports a scan outcome contributes: the open ports of a completed scan,
/// or the empty degraded list after a failure.
pub open spec fn spec_outcome_ports(o: ScanOutcome) -> Seq<Port> {
    match o {
        ScanOutcome::Completed(ps) => spec_open_ports(ps@),
        ScanOutcome::Failed => Seq::<Port>::empty(),
    }
}

/// Filtering a one-element sequence keeps or drops that element.
proof fn lemma_filter_singleton<A>(x: A, pred: spec_fn(A) -> bool)
    ensures
        seq![x].filter(pred) == if pred(x) {
            seq![x]
        } else {
            Seq::<A>::empty()
        },
{
    reveal_with_fuel(Seq::filter, 2);
    assert(seq![x].drop_last() =~= Seq::<A>::empty());
    if pred(x) {
        assert(seq![x].filter(pred) =~= seq![x]);
    } else {
        assert(seq![x].filter(pred) =~= Seq::<A>::empty());
    }
}

/// Keeps only the ports reported open; every other state is discarded at
/// this boundary.
pub fn retain_open_ports(ports: &Vec<Port>) -> (r: Vec<Port>)
    ensures
        r@ == spec_open_ports(ports@),
{
    let open_word: String = "open".to_owned();
    let mut r: Vec<Port> = Vec::new();
    let mut i: usize = 0;
    proof {
        assert(ports@.take(0) =~= Seq::<Port>::empty());
        assert(spec_open_ports(ports@.take(0)) =~= Seq::<Port>::empty());
    }
    while i < ports.len()
        invariant
            i <= ports.len(),
            open_word@ == "open"@,
            r@ == spec_open_ports(ports@.take(i as int)),
        decreases ports.len() - i,
    {
        proof {
            assert(ports@.take(i + 1) =~= ports@.take(i as int) + seq![ports@[i as int]]);
            Seq::<Port>::filter_distributes_over_add(
                ports@.take(i as int),
                seq![ports@[i as int]],
                open_pred(),
            );
            lemma_filter_singleton(ports@[i as int], open_pred());
            if spec_is_open(ports@[i as int]) {
                assert(spec_open_ports(ports@.take(i + 1)) =~= spec_open_ports(
                    ports@.take(i as int),
                ).push(ports@[i as int]));
            } else {
                assert(spec_open_ports(ports@.take(i + 1)) =~= spec_open_ports(
                    ports@.take(i as int),
                ));
            }
        }
        let is_open = ports[i].state.state.eq(&open_word);
        if is_open {
            r.push(ports[i].clone());
        }
        i = i + 1;
    }
    proof {
        assert(ports@.take(ports@.len() as int) =~= ports@);
    }
    r
}

/// One result entry per planned address, in plan order. A failed scan is
/// isolated: it degrades that address to an empty port list and leaves the
/// other entries untouched.
pub fn collect_scan_results(plan: &Vec<String>, outcomes: &Vec<ScanOutcome>) -> (r: Vec<
    (String, Vec<Port>),
>)
    requires
        outcomes@.len() == plan@.len(),
    ensures
        r@.len() == plan@.len(),
        forall|i: int|
            0 <= i < r@.len() ==> (#[trigger] r@[i]).0@ == plan@[i]@ && r@[i].1@
                == spec_outcome_ports(outcomes@[i]),
{
    let mut r: Vec<(String, Vec<Port>)> = Vec::new();
    let mut i: usize = 0;
    while i < plan.len()
        invariant
            i <= plan.len(),
            outcomes@.len() == plan@.len(),
            r@.len() == i,
            forall|j: int|
                0 <= j < i ==> (#[trigger] r@[j]).0@ == plan@[j]@ && r@[j].1@
                    == spec_outcome_ports(outcomes@[j]),
        decreases plan.len() - i,
    {
        let ports = match &outcomes[i] {
            ScanOutcome::Completed(ps) => retain_open_ports(ps),
            ScanOutcome::Failed => Vec::new(),
        };
        r.push((plan[i].clone(), ports));
        i = i + 1;
    }
    r
}

/// Whether some scan entry holds the address.
pub open spec fn spec_has_ip(m: Seq<(String, Vec<Port>)>, ip: Seq<char>) -> bool
    decreases m.len(),
{
    m.len() > 0 && (m[0].0@ == ip || spec_has_ip(m.drop_first(), ip))
}

/// The ports of the first scan entry holding the address; empty when none
/// does.
pub open spec fn spec_lookup_ports(m: Seq<(String, Vec<Port>)>, ip: Seq<char>) -> Seq<Port>
    decreases m.len(),
{
    if m.len() == 0 {
        Seq::<Port>::empty()
    } else if m[0].0@ == ip {
        m[0].1@
    } else {
        spec_lookup_ports(m.drop_first(), ip)
    }
}

/// Finds the ports scanned for an address.
fn lookup_ports(m: &Vec<(String, Vec<Port>)>, ip: &String) -> (r: Option<Vec<Port>>)
    ensures
        match r {
            Some(ps) => spec_has_ip(m@, ip@) && ps@ == spec_lookup_ports(m@, ip@),
            None => !spec_has_ip(m@, ip@),
        },
{
    let mut i: usize = 0;
    proof {
        assert(m@.skip(0) =~= m@);
    }
    while i < m.len()
        invariant
            i <= m.len(),
            spec_has_ip(m@, ip@) == spec_has_ip(m@.skip(i as int), ip@),
            spec_lookup_ports(m@, ip@) == spec_lookup_ports(m@.skip(i as int), ip@),
        decreases m.len() - i,
    {
        proof {
            assert(m@.skip(i as int)[0] == m@[i as int]);
            assert(m@.skip(i as int).drop_first() =~= m@.skip(i + 1));
        }
        if m[i].0.eq(ip) {
            return Some(clone_ports(&m[i].1));
        }
        i = i + 1;
    }
    proof {
        assert(m@.skip(m@.len() as int) =~= Seq::<(String, Vec<Port>)>::empty());
    }
    None
}

/// Remaps the per-address scan results back onto every target: the resolved
/// address is kept as it is; an eligible address receives the ports scanned
/// for it, an unresolved or ineligible one the empty port list.
pub fn remap_scan_results(
    records: &Vec<(String, ResolvData)>,
    scan: &Vec<(String, Vec<Port>)>,
) -> (out: Vec<(String, ResolvData)>)
    requires
        forall|ip: Seq<char>|
            #[trigger] record_ips(records@).contains(ip) && spec_eligible(ip) ==> spec_has_ip(
                scan@,
                ip,
            ),
    ensures
        out@.len() == records@.len(),
        forall|i: int|
            0 <= i < records@.len() ==> {
                &&& (#[trigger] out@[i]).0@ == records@[i].0@
                &&& out@[i].1.ip@ == records@[i].1.ip@
                &&& out@[i].1.ports_data@ == if spec_eligible(records@[i].1.ip@) {
                    spec_lookup_ports(scan@, records@[i].1.ip@)
                } else {
                    Seq::<Port>::empty()
                }
            },
{
    let mut out: Vec<(String, ResolvData)> = Vec::new();
    let mut k: usize = 0;
    while k < records.len()
        invariant
            k <= records.len(),
            out@.len() == k,
            forall|ip: Seq<char>|
                #[trigger] record_ips(records@).contains(ip) && spec_eligible(ip) ==> spec_has_ip(
                    scan@,
                    ip,
                ),
            forall|i: int|
                0 <= i < k ==> {
                    &&& (#[trigger] out@[i]).0@ == records@[i].0@
                    &&& out@[i].1.ip@ == records@[i].1.ip@
                    &&& out@[i].1.ports_data@ == if spec_eligible(records@[i].1.ip@) {
                        spec_lookup_ports(scan@, records@[i].1.ip@)
                    } else {
                        Seq::<Port>::empty()
                    }
                },
        decreases records.len() - k,
    {
        let ip = records[k].1.ip.clone();
        let eligible = is_eligible_address(&ip);
        let ports: Vec<Port> = if eligible {
            proof {
                assert(record_ips(records@)[k as int] == ip@);
                assert(record_ips(records@).contains(ip@));
            }
            match lookup_ports(scan, &ip) {
                Some(ps) => ps,
                None => {
                    proof {
                        assert(false);
                    }
                    Vec::new()
                },
            }
        } else {
            Vec::new()
        };
        out.push((records[k].0.clone(), ResolvData { ip, ports_data: ports }));
        k = k + 1;
    }
    out
}

/// An entry whose key is the address witnesses that the address is found.
proof fn lemma_has_ip_at_index(m: Seq<(String, Vec<Port>)>, ip: Seq<char>, i: int)
    requires
        0 <= i < m.len(),
        m[i].0@ == ip,
    ensures
        spec_has_ip(m, ip),
    decreases i,
{
    if i > 0 {
        assert(m.drop_first()[i - 1] == m[i]);
        lemma_has_ip_at_index(m.drop_first(), ip, i - 1);
    }
}

/// When exactly one entry holds the address, the lookup returns its ports.
proof fn lemma_lookup_at_unique_index(m: Seq<(String, Vec<Port>)>, ip: Seq<char>, i: int)
    requires
        0 <= i < m.len(),
        m[i].0@ == ip,
        forall|j: int| 0 <= j < m.len() && j != i ==> (#[trigger] m[j]).0@ != ip,
    ensures
        spec_lookup_ports(m, ip) == m[i].1@,
    decreases i,
{
    if i > 0 {
        assert(m[0].0@ != ip);
        assert(forall|j: int|
            0 <= j < m.drop_first().len() && j != i - 1 ==> (#[trigger] m.drop_first()[j])
                == m[j + 1]);
        assert(m.drop_first()[i - 1] == m[i]);
        lemma_lookup_at_unique_index(m.drop_first(), ip, i - 1);
    }
}

/// Runs collection and remapping after the scan fan-out. Because the plan
/// holds every eligible address exactly once and carries one outcome per
/// address, the per-target lookup cannot miss: every eligible target
/// receives the ports of its address's one scan outcome.
pub fn dispatch_and_remap(
    records: &Vec<(String, ResolvData)>,
    plan: &Vec<String>,
    outcomes: &Vec<ScanOutcome>,
) -> (out: Vec<(String, ResolvData)>)
    requires
        outcomes@.len() == plan@.len(),
        str_views(plan@).no_duplicates(),
        forall|ip: Seq<char>|
            #[trigger] record_ips(records@).contains(ip) && spec_eligible(ip) ==> str_views(
                plan@,
            ).contains(ip),
    ensures
        out@.len() == records@.len(),
        forall|i: int|
            0 <= i < records@.len() ==> {
                &&& (#[trigger] out@[i]).0@ == records@[i].0@
                &&& out@[i].1.ip@ == records@[i].1.ip@
                &&& !spec_eligible(records@[i].1.ip@) ==> out@[i].1.ports_data@ == Seq::<
                    Port,
                >::empty()
                &&& spec_eligible(records@[i].1.ip@) ==> exists|k: int|
                    {
                        &&& 0 <= k < plan@.len()
                        &&& #[trigger] str_views(plan@)[k] == records@[i].1.ip@
                        &&& out@[i].1.ports_data@ == spec_outcome_ports(outcomes@[k])
                    }
            },
{
    let results = collect_scan_results(plan, outcomes);
    proof {
        assert forall|ip: Seq<char>|
            #[trigger] record_ips(records@).contains(ip) && spec_eligible(ip) implies spec_has_ip(
            results@,
            ip,
        ) by {
            assert(str_views(plan@).contains(ip));
            let k = choose|k: int| 0 <= k < plan@.len() && str_views(plan@)[k] == ip;
            assert(results@[k].0@ == ip);
            lemma_has_ip_at_index(results@, ip, k);
        }
    }
    let out = remap_scan_results(records, &results);
    proof {
        assert forall|i: int|
            0 <= i < records@.len() && spec_eligible(records@[i].1.ip@) implies exists|k: int|
            {
                &&& 0 <= k < plan@.len()
                &&& #[trigger] str_views(plan@)[k] == records@[i].1.ip@
                &&& out@[i].1.ports_data@ == spec_outcome_ports(outcomes@[k])
            } by {
            let ip = records@[i].1.ip@;
            assert(record_ips(records@)[i] == ip);
            assert(record_ips(records@).contains(ip));
            assert(str_views(plan@).contains(ip));
            let k = choose|k: int| 0 <= k < plan@.len() && str_views(plan@)[k] == ip;
            assert(results@[k].0@ == ip);
            assert forall|j: int|
                0 <= j < results@.len() && j != k implies (#[trigger] results@[j]).0@ != ip by {
                assert(str_views(plan@)[j] == results@[j].0@);
            }
            lemma_lookup_at_unique_index(results@, ip, k);
            assert(out@[i].1.ports_data@ == spec_outcome_ports(outcomes@[k]));
        }
    }
    out
}

/// Targets that resolved to the same address receive identical port data:
/// remapping is keyed by address, not by target identity.
pub proof fn lemma_shared_address_same_ports(
    records: Seq<(String, ResolvData)>,
    scan: Seq<(String, Vec<Port>)>,
    out: Seq<(String, ResolvData)>,
    i: int,
    j: int,
)
    requires
        out.len() == records.len(),
        forall|k: int|
            0 <= k < records.len() ==> {
                &&& (#[trigger] out[k]).1.ip@ == records[k].1.ip@
                &&& out[k].1.ports_data@ == if spec_eligible(records[k].1.ip@) {
                    spec_lookup_ports(scan, records[k].1.ip@)
                } else {
                    Seq::<Port>::empty()
                }
            },
        0 <= i < records.len(),
        0 <= j < records.len(),
        records[i].1.ip@ == records[j].1.ip@,
    ensures
        out[i].1.ports_data@ == out[j].1.ports_data@,
{
}

/// A plan invokes the scanner exactly once per distinct eligible address,
/// however many targets resolved to it, and never for any other address.
pub proof fn lemma_scanned_exactly_once(
    records: Seq<(String, ResolvData)>,
    plan: Seq<String>,
    ip: Seq<char>,
)
    requires
        str_views(plan).no_duplicates(),
        forall|i: int| 0 <= i < plan.len() ==> spec_eligible(#[trigger] str_views(plan)[i]),
        forall|i: int|
            0 <= i < plan.len() ==> record_ips(records).contains(#[trigger] str_views(plan)[i]),
        forall|x: Seq<char>|
            #[trigger] record_ips(records).contains(x) && spec_eligible(x) ==> str_views(
                plan,
            ).contains(x),
    ensures
        str_views(plan).to_multiset().count(ip) == if record_ips(records).contains(ip)
            && spec_eligible(ip) {
            1int
        } else {
            0int
        },
{
    broadcast use vstd::seq_lib::group_to_multiset_ensures;

    let views = str_views(plan);
    views.lemma_multiset_has_no_duplicates();
    if record_ips(records).contains(ip) && spec_eligible(ip) {
        assert(views.contains(ip));
        assert(views.to_multiset().count(ip) > 0);
    } else {
        if views.contains(ip) {
            let i = choose|i: int| 0 <= i < views.len() && views[i] == ip;
            assert(spec_eligible(views[i]));
            assert(record_ips(records).contains(views[i]));
            assert(false);
        }
        assert(views.to_multiset().count(ip) == 0);
    }
}

/// Every address a plan hands to the scanner parses as IPv4 and lies in none
/// of the ranges 10.0.0.0/8, 172.16.0.0/12 and 192.168.0.0/16; unparsable or
/// empty addresses never reach the scanner.
pub proof fn lemma_plan_addresses_scannable(plan: Seq<String>, i: int)
    requires
        forall|k: int| 0 <= k < plan.len() ==> spec_eligible(#[trigger] str_views(plan)[k]),
        0 <= i < plan.len(),
    ensures
        str_views(plan)[i].len() > 0,
        spec_parse_ipv4(str_views(plan)[i]) is Some,
        !crate::ipv4::spec_is_private(spec_parse_ipv4(str_views(plan)[i])->0),
{
    assert(spec_eligible(str_views(plan)[i]));
}

/// The eligibility filter over a sequence of addresses.
pub open spec fn eligible_pred() -> spec_fn(Seq<char>) -> bool {
    |ip: Seq<char>| spec_eligible(ip)
}

/// The eligible addresses of a list of addresses, in order.
pub open spec fn spec_eligible_filter(ips: Seq<Seq<char>>) -> Seq<Seq<char>> {
    ips.filter(eligible_pred())
}

/// Filtering a sequence whose members all satisfy the predicate returns it
/// unchanged.
proof fn lemma_filter_identity(s: Seq<Seq<char>>)
    requires
        forall|k: int| 0 <= k < s.len() ==> eligible_pred()((#[trigger] s[k])),
    ensures
        s.filter(eligible_pred()) == s,
    decreases s.len(),
{
    if s.len() == 0 {
        reveal_with_fuel(Seq::filter, 1);
        assert(s.filter(eligible_pred()) =~= s);
    } else {
        lemma_filter_identity(s.drop_last());
        assert(eligible_pred()(s.last()));
        assert(s =~= s.drop_last() + seq![s.last()]);
        Seq::<Seq<char>>::filter_distributes_over_add(
            s.drop_last(),
            seq![s.last()],
            eligible_pred(),
        );
        lemma_filter_singleton(s.last(), eligible_pred());
        assert(s.filter(eligible_pred()) =~= s.drop_last().filter(eligible_pred()) + seq![
            s.last()
        ]);
        assert(s.drop_last().filter(eligible_pred()) + seq![s.last()] =~= s);
    }
}

/// The eligibility filter is idempotent: applying it twice to the addresses
/// of a resolution map yields the same eligible-address sequence as applying
/// it once.
pub proof fn lemma_eligible_filter_idempotent(ips: Seq<Seq<char>>)
    ensures
        spec_eligible_filter(spec_eligible_filter(ips)) == spec_eligible_filter(ips),
{
    broadcast use vstd::seq_lib::group_filter_ensures;

    let once = spec_eligible_filter(ips);
    assert(forall|k: int| 0 <= k < once.len() ==> eligible_pred()((#[trigger] once[k])));
    lemma_filter_identity(once);
}

} // verus!
