//! The preflight validator: before any mutation, every file that the
//! declaration references is checked for existence and, for certificate
//! and chain artifacts, for structural parseability. All issues across the
//! whole declaration are collected before the run aborts; nothing stops at
//! the first missing file.
//!
//! The caller probes the filesystem and hands the file contents in as
//! plain values; which issues are reported is decided and proved here.

use vstd::prelude::*;
use vstd::string::StringExecFns;
use crate::certmeta::{read_cert_meta, spec_cert_meta};
use crate::models::{CertificateConfig, YamlConfig};
use crate::paths::{absolutize_for_errors, resolve_against_base, spec_resolve};
use crate::serial::{dec_digits, u64_to_decimal};

verus! {

/// One file-backed resource to check: who owns it and where its three
/// artifacts resolve to.
pub struct PreflightTarget {
    pub program_id: u32,
    pub cert_name: String,
    pub cert_path: String,
    pub chain_path: String,
    pub key_path: String,
}

/// What the caller found on disk for one target: the artifact bytes, or
/// nothing where the file is missing or unreadable; the key is only
/// checked for existence.
pub struct PreflightProbe {
    pub cert_data: Option<Vec<u8>>,
    pub chain_data: Option<Vec<u8>>,
    pub key_exists: bool,
}

/// The plain view of one target.
pub open spec fn view_of_target(t: PreflightTarget) -> (u32, Seq<char>, Seq<char>, Seq<char>, Seq<
    char,
>) {
    (t.program_id, t.cert_name@, t.cert_path@, t.chain_path@, t.key_path@)
}

/// The bytes of a probed artifact, if the file was there.
pub open spec fn spec_probe_bytes(d: Option<Vec<u8>>) -> Option<Seq<u8>> {
    match d {
        Option::None => Option::None,
        Option::Some(v) => Option::Some(v@),
    }
}

/// The issue list for one artifact: one message when the file is missing,
/// one when it is present but parses as no certificate, none otherwise.
pub open spec fn spec_artifact_issues(
    data: Option<Seq<u8>>,
    path: Seq<char>,
    missing: Seq<char>,
    invalid: Seq<char>,
) -> Seq<Seq<char>> {
    match data {
        Option::None => seq![missing + path],
        Option::Some(bytes) => if spec_cert_meta(bytes) is None {
            seq![invalid + path]
        } else {
            Seq::empty()
        },
    }
}

/// The issue list for one declared certificate: existence of all three
/// files, parseability of certificate and chain.
pub open spec fn spec_cert_issues(t: PreflightTarget, p: PreflightProbe) -> Seq<Seq<char>> {
    spec_artifact_issues(
        spec_probe_bytes(p.cert_data),
        t.cert_path@,
        "certificate file is missing: "@,
        "certificate file is invalid: "@,
    ) + spec_artifact_issues(
        spec_probe_bytes(p.chain_data),
        t.chain_path@,
        "chain file is missing: "@,
        "chain file is invalid: "@,
    ) + (if p.key_exists {
        Seq::<Seq<char>>::empty()
    } else {
        seq!["key file is missing: "@ + t.key_path@]
    })
}

/// How many issues one declared certificate contributes: one per missing
/// file, plus one per present but unparseable artifact.
pub open spec fn spec_cert_issue_count(t: PreflightTarget, p: PreflightProbe) -> int {
    (match spec_probe_bytes(p.cert_data) {
        Option::None => 1int,
        Option::Some(b) => if spec_cert_meta(b) is None {
            1int
        } else {
            0int
        },
    }) + (match spec_probe_bytes(p.chain_data) {
        Option::None => 1int,
        Option::Some(b) => if spec_cert_meta(b) is None {
            1int
        } else {
            0int
        },
    }) + (if p.key_exists {
        0int
    } else {
        1int
    })
}

/// The context tag put in front of every issue message: the owning
/// program and the resource's name.
pub open spec fn spec_issue_tag(program_id: u32, name: Seq<char>) -> Seq<char> {
    "program "@ + dec_digits(program_id as nat) + " - cert '"@ + name + "': "@
}

/// The tagged issue list for one declared certificate.
pub open spec fn spec_tagged_issues(t: PreflightTarget, p: PreflightProbe) -> Seq<Seq<char>> {
    spec_cert_issues(t, p).map_values(|m: Seq<char>| spec_issue_tag(t.program_id, t.cert_name@) + m)
}

/// The tagged issue list across the whole declaration, in declaration
/// order.
pub open spec fn spec_all_issues(ts: Seq<PreflightTarget>, ps: Seq<PreflightProbe>) -> Seq<
    Seq<char>,
>
    decreases ts.len(),
{
    if ts.len() == 0 {
        Seq::empty()
    } else {
        spec_all_issues(ts.drop_last(), ps.drop_last()) + spec_tagged_issues(ts.last(), ps.last())
    }
}

/// The total issue count across the whole declaration.
pub open spec fn spec_total_issue_count(ts: Seq<PreflightTarget>, ps: Seq<PreflightProbe>) -> int
    decreases ts.len(),
{
    if ts.len() == 0 {
        0
    } else {
        spec_total_issue_count(ts.drop_last(), ps.drop_last()) + spec_cert_issue_count(
            ts.last(),
            ps.last(),
        )
    }
}

/// Builds one issue message.
fn issue_msg(prefix: &str, path: &str) -> (r: String)
    ensures
        r@ == prefix@ + path@,
{
    let s = String::from_str(prefix);
    s.concat(path)
}

/// Validates one declared certificate against what the caller found on
/// disk, and reports every issue: a missing certificate, chain or key
/// file, and a certificate or chain artifact that parses as no
/// certificate. An empty result means the resource is clear to proceed.
pub fn collect_cert_issues(t: &PreflightTarget, p: &PreflightProbe) -> (issues: Vec<String>)
    ensures
        issues.deep_view() == spec_cert_issues(*t, *p),
        issues@.len() == spec_cert_issue_count(*t, *p),
{
    let mut issues: Vec<String> = Vec::new();
    match &p.cert_data {
        Option::None => {
            issues.push(issue_msg("certificate file is missing: ", t.cert_path.as_str()));
        },
        Option::Some(bytes) => {
            if read_cert_meta(bytes.as_slice()).is_err() {
                issues.push(issue_msg("certificate file is invalid: ", t.cert_path.as_str()));
            }
        },
    }
    let ghost after_cert = issues.deep_view();
    match &p.chain_data {
        Option::None => {
            issues.push(issue_msg("chain file is missing: ", t.chain_path.as_str()));
        },
        Option::Some(bytes) => {
            if read_cert_meta(bytes.as_slice()).is_err() {
                issues.push(issue_msg("chain file is invalid: ", t.chain_path.as_str()));
            }
        },
    }
    let ghost after_chain = issues.deep_view();
    if !p.key_exists {
        issues.push(issue_msg("key file is missing: ", t.key_path.as_str()));
    }
    proof {
        assert(after_cert =~~= spec_artifact_issues(
            spec_probe_bytes(p.cert_data),
            t.cert_path@,
            "certificate file is missing: "@,
            "certificate file is invalid: "@,
        ));
        assert(after_chain =~~= after_cert + spec_artifact_issues(
            spec_probe_bytes(p.chain_data),
            t.chain_path@,
            "chain file is missing: "@,
            "chain file is invalid: "@,
        ));
        assert(issues.deep_view() =~~= spec_cert_issues(*t, *p));
    }
    issues
}

/// Validates the whole declaration: every target is checked, every issue
/// is kept, each tagged with the owning program and resource name, in
/// declaration order. An empty result means the run may proceed; a
/// non-empty one is fatal before any mutation.
pub fn collect_all_cert_issues(targets: &Vec<PreflightTarget>, probes: &Vec<PreflightProbe>) -> (r:
    Vec<String>)
    requires
        targets@.len() == probes@.len(),
    ensures
        r.deep_view() == spec_all_issues(targets@, probes@),
        r@.len() == spec_total_issue_count(targets@, probes@),
{
    let mut all: Vec<String> = Vec::new();
    let n = targets.len();
    let mut i: usize = 0;
    proof {
        assert(targets@.take(0) =~= Seq::<PreflightTarget>::empty());
        assert(probes@.take(0) =~= Seq::<PreflightProbe>::empty());
    }
    while i < n
        invariant
            i <= n,
            n == targets@.len(),
            n == probes@.len(),
            all.deep_view() == spec_all_issues(targets@.take(i as int), probes@.take(i as int)),
            all@.len() == spec_total_issue_count(targets@.take(i as int), probes@.take(i as int)),
        decreases n - i,
    {
        let t = &targets[i];
        let p = &probes[i];
        let item = collect_cert_issues(t, p);
        let tag_num = u64_to_decimal(t.program_id as u64);
        let mut j: usize = 0;
        let m = item.len();
        let ghost base = all.deep_view();
        let ghost tagged = spec_tagged_issues(*t, *p);
        while j < m
            invariant
                j <= m,
                m == item@.len(),
                item.deep_view() == spec_cert_issues(*t, *p),
                tagged == spec_tagged_issues(*t, *p),
                tag_num@ == dec_digits(t.program_id as nat),
                all.deep_view() == base + tagged.take(j as int),
                all@.len() == base.len() + j,
            decreases m - j,
        {
            let tag = String::from_str("program ");
            let tag = tag.concat(tag_num.as_str());
            let tag = tag.concat(" - cert '");
            let tag = tag.concat(t.cert_name.as_str());
            let tag = tag.concat("': ");
            let ghost msg_view = tag@ + item@[j as int]@;
            let msg = tag.concat(item[j].as_str());
            let ghost prev = all.deep_view();
            all.push(msg);
            proof {
                assert(item.deep_view()[j as int] == item@[j as int]@);
                assert(item.deep_view()[j as int] == spec_cert_issues(*t, *p)[j as int]);
                assert(tagged[j as int] == spec_issue_tag(t.program_id, t.cert_name@)
                    + spec_cert_issues(*t, *p)[j as int]);
                assert(msg@ =~= tagged[j as int]);
                assert(all.deep_view() =~= prev.push(msg@));
                assert(all.deep_view() =~~= base + tagged.take(j as int + 1));
            }
            j = j + 1;
        }
        proof {
            assert(tagged.take(m as int) =~= tagged);
            assert(tagged.len() == spec_cert_issues(*t, *p).len());
            let ts1 = targets@.take(i as int + 1);
            let ps1 = probes@.take(i as int + 1);
            assert(ts1.drop_last() =~= targets@.take(i as int));
            assert(ps1.drop_last() =~= probes@.take(i as int));
            assert(ts1.last() == targets@[i as int]);
            assert(ps1.last() == probes@[i as int]);
        }
        i = i + 1;
    }
    proof {
        assert(targets@.take(n as int) =~= targets@);
        assert(probes@.take(n as int) =~= probes@);
    }
    all
}

/// The preflight validator reports exactly one message per problem found:
/// a declaration with `k` missing or unparseable files among its targets
/// yields exactly `k` issue messages, never fewer, wherever in the
/// declaration they sit.
pub proof fn lemma_preflight_reports_every_issue(
    ts: Seq<PreflightTarget>,
    ps: Seq<PreflightProbe>,
)
    requires
        ts.len() == ps.len(),
    ensures
        spec_all_issues(ts, ps).len() == spec_total_issue_count(ts, ps),
    decreases ts.len(),
{
    if ts.len() == 0 {
    } else {
        lemma_preflight_reports_every_issue(ts.drop_last(), ps.drop_last());
        assert(spec_tagged_issues(ts.last(), ps.last()).len() == spec_cert_issue_count(
            ts.last(),
            ps.last(),
        ));
    }
}

/// Resolves every file reference of every declared certificate: relative
/// paths against the declaration document's directory, and the result
/// against the caller's working directory for display.
pub open spec fn spec_cert_target(
    pid: u32,
    c: CertificateConfig,
    base: Seq<char>,
    cwd: Seq<char>,
) -> (u32, Seq<char>, Seq<char>, Seq<char>, Seq<char>) {
    (
        pid,
        c.name@,
        spec_resolve(cwd, spec_resolve(base, c.certificate@)),
        spec_resolve(cwd, spec_resolve(base, c.chain@)),
        spec_resolve(cwd, spec_resolve(base, c.key@)),
    )
}

/// The targets of one program, in declaration order.
pub open spec fn spec_program_targets(
    pid: u32,
    certs: Option<Vec<CertificateConfig>>,
    base: Seq<char>,
    cwd: Seq<char>,
) -> Seq<(u32, Seq<char>, Seq<char>, Seq<char>, Seq<char>)> {
    match certs {
        Option::None => Seq::empty(),
        Option::Some(cs) => cs@.map_values(|c: CertificateConfig| spec_cert_target(
            pid,
            c,
            base,
            cwd,
        )),
    }
}

/// The targets of the whole declaration, in declaration order.
pub open spec fn spec_all_targets(config: YamlConfig, base: Seq<char>, cwd: Seq<char>) -> Seq<
    (u32, Seq<char>, Seq<char>, Seq<char>, Seq<char>),
>
    decreases config.programs@.len(),
{
    spec_targets_of(config.programs@, base, cwd)
}

/// The targets contributed by a list of programs.
pub open spec fn spec_targets_of(
    programs: Seq<crate::models::ProgramsConfig>,
    base: Seq<char>,
    cwd: Seq<char>,
) -> Seq<(u32, Seq<char>, Seq<char>, Seq<char>, Seq<char>)>
    decreases programs.len(),
{
    if programs.len() == 0 {
        Seq::empty()
    } else {
        spec_targets_of(programs.drop_last(), base, cwd) + spec_program_targets(
            programs.last().id,
            programs.last().certificates,
            base,
            cwd,
        )
    }
}

/// Walks the declaration and resolves every declared certificate's file
/// references into preflight targets, in declaration order.
pub fn preflight_targets(config: &YamlConfig, base_dir: &str, cwd: &str) -> (r: Vec<
    PreflightTarget,
>)
    ensures
        r@.map_values(|t: PreflightTarget| view_of_target(t)) == spec_all_targets(
            *config,
            base_dir@,
            cwd@,
        ),
{
    let mut out: Vec<PreflightTarget> = Vec::new();
    let n = config.programs.len();
    let mut i: usize = 0;
    proof {
        assert(config.programs@.take(0) =~= Seq::<crate::models::ProgramsConfig>::empty());
        assert(out@.map_values(|t: PreflightTarget| view_of_target(t)) =~= spec_targets_of(
            config.programs@.take(0),
            base_dir@,
            cwd@,
        ));
    }
    while i < n
        invariant
            i <= n,
            n == config.programs@.len(),
            out@.map_values(|t: PreflightTarget| view_of_target(t)) == spec_targets_of(
                config.programs@.take(i as int),
                base_dir@,
                cwd@,
            ),
        decreases n - i,
    {
        let prog = &config.programs[i];
        let ghost before = out@;
        match &prog.certificates {
            Option::None => {
            },
            Option::Some(certs) => {
                let m = certs.len();
                let mut j: usize = 0;
                proof {
                    assert(certs@.take(0).map_values(
                        |c: CertificateConfig| spec_cert_target(prog.id, c, base_dir@, cwd@),
                    ) =~= Seq::<(u32, Seq<char>, Seq<char>, Seq<char>, Seq<char>)>::empty());
                }
                while j < m
                    invariant
                        j <= m,
                        m == certs@.len(),
                        out@.map_values(|t: PreflightTarget| view_of_target(t)) == before.map_values(
                            |t: PreflightTarget| view_of_target(t),
                        ) + certs@.take(j as int).map_values(
                            |c: CertificateConfig| spec_cert_target(prog.id, c, base_dir@, cwd@),
                        ),
                    decreases m - j,
                {
                    let c = &certs[j];
                    let cert_rel = resolve_against_base(base_dir, c.certificate.as_str());
                    let chain_rel = resolve_against_base(base_dir, c.chain.as_str());
                    let key_rel = resolve_against_base(base_dir, c.key.as_str());
                    let t = PreflightTarget {
                        program_id: prog.id,
                        cert_name: String::from_str(c.name.as_str()),
                        cert_path: absolutize_for_errors(cwd, cert_rel.as_str()),
                        chain_path: absolutize_for_errors(cwd, chain_rel.as_str()),
                        key_path: absolutize_for_errors(cwd, key_rel.as_str()),
                    };
                    let ghost prev = out@;
                    let ghost tv = view_of_target(t);
                    out.push(t);
                    proof {
                        let f = |c: CertificateConfig| spec_cert_target(
                            prog.id,
                            c,
                            base_dir@,
                            cwd@,
                        );
                        let g = |t: PreflightTarget| view_of_target(t);
                        assert(tv == f(certs@[j as int]));
                        assert(certs@.take(j as int + 1) =~= certs@.take(j as int).push(
                            certs@[j as int],
                        ));
                        assert(out@ =~= prev.push(out@.last()));
                        assert(view_of_target(out@.last()) == tv);
                        assert(out@.map_values(g) =~= prev.map_values(g).push(tv));
                        assert(out@.map_values(g) =~= before.map_values(g) + certs@.take(
                            j as int + 1,
                        ).map_values(f));
                    }
                    j = j + 1;
                }
                proof {
                    assert(certs@.take(m as int) =~= certs@);
                }
            },
        }
        proof {
            let ps1 = config.programs@.take(i as int + 1);
            assert(ps1.drop_last() =~= config.programs@.take(i as int));
            assert(ps1.last() == config.programs@[i as int]);
        }
        i = i + 1;
    }
    proof {
        assert(config.programs@.take(n as int) =~= config.programs@);
    }
    out
}

} // verus!
