use vstd::prelude::*;
use vstd::string::StrSliceExecFns;
use vstd::string::StringExecFns;

use crate::config::CCView;
use crate::config::ComponentConfig;
use crate::config::cc_view;
use crate::global_config::GlobalConfig;
use crate::ssl_certs::SSLCerts;
use crate::ssl_certs::entries_view;
use crate::ssl_certs::failure_msg;
use crate::ssl_certs::ssl_body;
use crate::toml_tree::TomlItem;

verus! {

/// Columns of indent a panel row is drawn with.
pub const INDENT_WIDTH: usize = 2;

/// The narrowest table the filesystems panel will draw.
pub const FS_TABLE_MIN_WIDTH: usize = 12;

/// Layout hints a component declares during its `prepare` phase, before any
/// panel has produced output.
pub struct Constraints {
    /// The smallest report width, in columns, under which the component's
    /// tabular content stays aligned.  Always positive when present.
    pub min_width: Option<usize>,
}

impl Constraints {
    /// A constraint is well formed when any minimum width it carries is
    /// positive: a panel either asks for room or stays silent, it never asks
    /// for zero columns.
    pub open spec fn wf(self) -> bool {
        match self.min_width {
            Some(w) => w > 0,
            None => true,
        }
    }
}

/// The width carried by one slot of the constraint sequence, if that slot
/// holds a constraint with a minimum width.
pub open spec fn slot_width(c: Option<Constraints>) -> Option<usize> {
    match c {
        Some(con) => con.min_width,
        None => None,
    }
}

/// The report-wide width negotiated from a sequence of optional constraints:
/// the maximum of all present minimum widths, or `None` when no component
/// declared one.  An empty sequence yields `None`, never zero.
pub open spec fn negotiated_width(cs: Seq<Option<Constraints>>) -> Option<usize>
    decreases cs.len(),
{
    if cs.len() == 0 {
        None
    } else {
        let rest = negotiated_width(cs.drop_last());
        match slot_width(cs.last()) {
            Some(w) => match rest {
                Some(r) => if w > r {
                    Some(w)
                } else {
                    Some(r)
                },
                None => Some(w),
            },
            None => rest,
        }
    }
}

/// Reduces the constraints produced by the prepare phase to the single
/// report-wide width that every later `print` call receives.
pub fn negotiate_width(constraints: &Vec<Option<Constraints>>) -> (width: Option<usize>)
    ensures
        width == negotiated_width(constraints@),
{
    let mut width: Option<usize> = None;
    let mut i: usize = 0;
    while i < constraints.len()
        invariant
            i <= constraints.len(),
            width == negotiated_width(constraints@.subrange(0, i as int)),
        decreases constraints.len() - i,
    {
        proof {
            assert(constraints@.subrange(0, i + 1).drop_last() =~= constraints@.subrange(
                0,
                i as int,
            ));
            assert(constraints@.subrange(0, i + 1).last() == constraints@[i as int]);
        }
        width = match (slot_width_exec(&constraints[i]), width) {
            (Some(w), Some(r)) => if w > r {
                Some(w)
            } else {
                Some(r)
            },
            (Some(w), None) => Some(w),
            (None, r) => r,
        };
        i = i + 1;
    }
    proof {
        assert(constraints@.subrange(0, constraints@.len() as int) =~= constraints@);
    }
    width
}

/// The minimum width carried by one optional constraint.
fn slot_width_exec(c: &Option<Constraints>) -> (w: Option<usize>)
    ensures
        w == slot_width(*c),
{
    match c {
        Some(con) => con.min_width,
        None => None,
    }
}

/// The negotiated width is exactly the maximum of the widths that are
/// present: it is absent if and only if no slot carries a width; when it is
/// present it is one of the carried widths and no carried width exceeds it.
pub proof fn lemma_negotiated_width_is_max(cs: Seq<Option<Constraints>>)
    ensures
        negotiated_width(cs) is None <==> (forall|i: int|
            0 <= i < cs.len() ==> slot_width(#[trigger] cs[i]) is None),
        negotiated_width(cs) is Some ==> exists|i: int|
            0 <= i < cs.len() && slot_width(#[trigger] cs[i]) == negotiated_width(cs),
        negotiated_width(cs) is Some ==> (forall|i: int|
            0 <= i < cs.len() && slot_width(#[trigger] cs[i]) is Some ==> slot_width(
                cs[i],
            )->0 <= negotiated_width(cs)->0),
    decreases cs.len(),
{
    if cs.len() > 0 {
        lemma_negotiated_width_is_max(cs.drop_last());
        assert(cs.drop_last() =~= cs.subrange(0, cs.len() - 1));
        assert(forall|i: int| 0 <= i < cs.len() - 1 ==> cs.drop_last()[i] == cs[i]);
        assert(cs.last() == cs[cs.len() - 1]);
    }
}

/// With well-formed constraints the negotiated width is positive whenever it
/// is present: absence is the only way a report says "no preference", never
/// zero or a sentinel number.
pub proof fn lemma_negotiated_width_positive(cs: Seq<Option<Constraints>>)
    requires
        forall|i: int| 0 <= i < cs.len() && (#[trigger] cs[i]) is Some ==> cs[i]->0.wf(),
    ensures
        negotiated_width(cs) is Some ==> negotiated_width(cs)->0 > 0,
{
    lemma_negotiated_width_is_max(cs);
}

/// A prepared panel, ready to render exactly once: `print` consumes it.
pub enum Component {
    Banner(TomlItem),
    Docker(TomlItem),
    Fail2Ban(TomlItem),
    Filesystems(crate::config::FilesystemsConfig),
    LastLogin(TomlItem),
    LastRun(TomlItem),
    Memory(TomlItem),
    ServiceStatus(TomlItem),
    UserServiceStatus(TomlItem),
    SSLCerts(SSLCerts),
    Uptime(TomlItem),
    Weather(TomlItem),
}

/// Spec-level image of a prepared component; `prepare` keeps the
/// configuration's image.
pub open spec fn component_view(c: Component) -> CCView {
    match c {
        Component::Banner(t) => CCView::Banner(t),
        Component::Docker(t) => CCView::Docker(t),
        Component::Fail2Ban(t) => CCView::Fail2Ban(t),
        Component::Filesystems(f) => CCView::Filesystems(crate::config::pairs_view(f.mounts@)),
        Component::LastLogin(t) => CCView::LastLogin(t),
        Component::LastRun(t) => CCView::LastRun(t),
        Component::Memory(t) => CCView::Memory(t),
        Component::ServiceStatus(t) => CCView::ServiceStatus(t),
        Component::UserServiceStatus(t) => CCView::UserServiceStatus(t),
        Component::SSLCerts(s) => CCView::SSLCerts(s.sort_method, crate::config::pairs_view(s.certs@)),
        Component::Uptime(t) => CCView::Uptime(t),
        Component::Weather(t) => CCView::Weather(t),
    }
}

/// The longest label among the filesystems panel's rows.
pub open spec fn max_label_len(ps: Seq<(Seq<char>, Seq<char>)>) -> nat
    decreases ps.len(),
{
    if ps.len() == 0 {
        0
    } else {
        let rest = max_label_len(ps.drop_last());
        if ps.last().0.len() > rest {
            ps.last().0.len()
        } else {
            rest
        }
    }
}

/// The smallest width under which the filesystems table stays aligned: room
/// for the indent and the longest label, and never narrower than the base
/// table width.
pub open spec fn fs_min_width(ps: Seq<(Seq<char>, Seq<char>)>) -> usize {
    let need = INDENT_WIDTH + max_label_len(ps);
    if need <= FS_TABLE_MIN_WIDTH {
        FS_TABLE_MIN_WIDTH
    } else if need >= usize::MAX {
        usize::MAX
    } else {
        need as usize
    }
}

/// The constraint a panel declares: only the filesystems panel is
/// width-sensitive; every other panel stays silent.
pub open spec fn constraints_of(v: CCView) -> Option<Constraints> {
    match v {
        CCView::Filesystems(ps) => Some(Constraints { min_width: Some(fs_min_width(ps)) }),
        _ => None,
    }
}

fn fs_min_width_exec(f: &crate::config::FilesystemsConfig) -> (w: usize)
    ensures
        w == fs_min_width(crate::config::pairs_view(f.mounts@)),
{
    let ghost px = crate::config::pairs_view(f.mounts@);
    let mut best: usize = 0;
    let mut i: usize = 0;
    proof {
        assert(px.subrange(0, 0) =~= Seq::<(Seq<char>, Seq<char>)>::empty());
    }
    while i < f.mounts.len()
        invariant
            px == crate::config::pairs_view(f.mounts@),
            i <= f.mounts@.len(),
            best as nat == max_label_len(px.subrange(0, i as int)),
        decreases f.mounts@.len() - i,
    {
        proof {
            assert(px.subrange(0, i + 1).drop_last() =~= px.subrange(0, i as int));
            assert(px.subrange(0, i + 1).last() == px[i as int]);
            assert(px[i as int].0 == f.mounts@[i as int].0@);
        }
        let l = f.mounts[i].0.as_str().unicode_len();
        if l > best {
            best = l;
        }
        i = i + 1;
    }
    proof {
        assert(px.subrange(0, f.mounts@.len() as int) =~= px);
    }
    if best <= FS_TABLE_MIN_WIDTH - INDENT_WIDTH {
        FS_TABLE_MIN_WIDTH
    } else if best >= usize::MAX - INDENT_WIDTH {
        usize::MAX
    } else {
        best + INDENT_WIDTH
    }
}

impl ComponentConfig {
    /// The prepare phase: a pure step from configuration to a
    /// ready-to-render component plus an optional layout constraint.  It
    /// performs no I/O and cannot fail on configurations the parsing
    /// boundary admits.
    pub fn prepare(self, global_config: &GlobalConfig) -> (r: (Component, Option<Constraints>))
        ensures
            component_view(r.0) == cc_view(self),
            r.1 == constraints_of(cc_view(self)),
            (match r.1 {
                Some(c) => c.wf(),
                None => true,
            }),
    {
        match self {
            ComponentConfig::Banner(t) => (Component::Banner(t), None),
            ComponentConfig::Docker(t) => (Component::Docker(t), None),
            ComponentConfig::Fail2Ban(t) => (Component::Fail2Ban(t), None),
            ComponentConfig::Filesystems(f) => {
                let w = fs_min_width_exec(&f);
                (Component::Filesystems(f), Some(Constraints { min_width: Some(w) }))
            },
            ComponentConfig::LastLogin(t) => (Component::LastLogin(t), None),
            ComponentConfig::LastRun(t) => (Component::LastRun(t), None),
            ComponentConfig::Memory(t) => (Component::Memory(t), None),
            ComponentConfig::ServiceStatus(t) => (Component::ServiceStatus(t), None),
            ComponentConfig::UserServiceStatus(t) => (Component::UserServiceStatus(t), None),
            ComponentConfig::SSLCerts(s) => (Component::SSLCerts(s), None),
            ComponentConfig::Uptime(t) => (Component::Uptime(t), None),
            ComponentConfig::Weather(t) => (Component::Weather(t), None),
        }
    }
}

/// The prepare phase mapped over the ordered panel list: one component and
/// one optional constraint per configuration, order-aligned 1:1.
pub fn prepare_all(configs: Vec<ComponentConfig>, global_config: &GlobalConfig) -> (r: (
    Vec<Component>,
    Vec<Option<Constraints>>,
))
    ensures
        r.0@.len() == configs@.len(),
        r.1@.len() == configs@.len(),
        forall|i: int|
            0 <= i < configs@.len() ==> component_view(#[trigger] r.0@[i]) == cc_view(configs@[i])
                && r.1@[i] == constraints_of(cc_view(configs@[i])),
        forall|i: int|
            0 <= i < configs@.len() && (#[trigger] r.1@[i]) is Some ==> r.1@[i]->0.wf(),
{
    let ghost orig = configs@;
    let mut rest = configs;
    let total: usize = rest.len();
    let mut comps: Vec<Component> = Vec::new();
    let mut cons: Vec<Option<Constraints>> = Vec::new();
    let mut i: usize = 0;
    proof {
        assert(rest@ =~= orig.skip(0));
    }
    while rest.len() > 0
        invariant
            orig.len() == total as int,
            i + rest@.len() == orig.len(),
            rest@ == orig.skip(i as int),
            comps@.len() == i,
            cons@.len() == i,
            forall|j: int|
                0 <= j < i ==> component_view(#[trigger] comps@[j]) == cc_view(orig[j])
                    && cons@[j] == constraints_of(cc_view(orig[j])),
            forall|j: int| 0 <= j < i && (#[trigger] cons@[j]) is Some ==> cons@[j]->0.wf(),
        decreases rest@.len(),
    {
        let ghost prev = rest@;
        let c = rest.remove(0);
        proof {
            assert(prev[0] == orig[i as int]);
            assert(rest@ =~= orig.skip(i + 1));
        }
        let (comp, con) = c.prepare(global_config);
        comps.push(comp);
        cons.push(con);
        i = i + 1;
    }
    (comps, cons)
}

/// The data gathered for one panel before it renders.
pub enum PanelData {
    /// A generic panel's gathered body lines, or its probe's error message.
    Lines(Result<Vec<String>, String>),
    /// The certificate panel's inputs: the judgment time in Unix seconds
    /// and one fetched file per configured certificate, in configuration
    /// order.
    Certs(i64, Vec<Result<Vec<u8>, String>>),
}

/// The label a panel's error line carries.
pub open spec fn kind_label(v: CCView) -> Seq<char> {
    match v {
        CCView::Banner(_) => "Banner"@,
        CCView::Docker(_) => "Docker"@,
        CCView::Fail2Ban(_) => "Fail2Ban"@,
        CCView::Filesystems(_) => "Filesystem"@,
        CCView::LastLogin(_) => "Last Login"@,
        CCView::LastRun(_) => "Last Run"@,
        CCView::Memory(_) => "Memory"@,
        CCView::ServiceStatus(_) => "Service Status"@,
        CCView::UserServiceStatus(_) => "User Service Status"@,
        CCView::SSLCerts(_, _) => "SSL Certificate"@,
        CCView::Uptime(_) => "Uptime"@,
        CCView::Weather(_) => "Weather"@,
    }
}

/// One labeled error line.
pub open spec fn error_line(label: Seq<char>, msg: Seq<char>) -> Seq<char> {
    label + " error: "@ + msg
}

/// The message when a panel is handed data gathered for another kind of
/// panel, or too little of it.
pub open spec fn missing_data_msg() -> Seq<char> {
    "missing panel data"@
}

/// What a panel prints: its gathered body and a blank separator line; a
/// panel whose gathering failed prints exactly one labeled error line and
/// the separator instead.  A panel with no tabular content ignores the
/// negotiated width.
pub open spec fn print_spec(
    c: Component,
    g: GlobalConfig,
    width: Option<usize>,
    d: PanelData,
) -> Seq<Seq<char>> {
    let label = kind_label(component_view(c));
    match c {
        Component::SSLCerts(cfg) => match d {
            PanelData::Certs(now, files) => if files@.len() == cfg.certs@.len() {
                match ssl_body(
                    cfg.sort_method,
                    entries_view(cfg.certs@, files@),
                    now as int,
                    g.time_format@,
                ) {
                    Ok(lines) => lines + seq![Seq::<char>::empty()],
                    Err(f) => seq![error_line(label, failure_msg(f)), Seq::<char>::empty()],
                }
            } else {
                seq![error_line(label, missing_data_msg()), Seq::<char>::empty()]
            },
            _ => seq![error_line(label, missing_data_msg()), Seq::<char>::empty()],
        },
        _ => match d {
            PanelData::Lines(Ok(ls)) => ls.deep_view() + seq![Seq::<char>::empty()],
            PanelData::Lines(Err(e)) => seq![error_line(label, e@), Seq::<char>::empty()],
            PanelData::Certs(_, _) => seq![
                error_line(label, missing_data_msg()),
                Seq::<char>::empty(),
            ],
        },
    }
}

fn kind_label_exec(c: &Component) -> (r: &'static str)
    ensures
        r@ == kind_label(component_view(*c)),
{
    match c {
        Component::Banner(_) => "Banner",
        Component::Docker(_) => "Docker",
        Component::Fail2Ban(_) => "Fail2Ban",
        Component::Filesystems(_) => "Filesystem",
        Component::LastLogin(_) => "Last Login",
        Component::LastRun(_) => "Last Run",
        Component::Memory(_) => "Memory",
        Component::ServiceStatus(_) => "Service Status",
        Component::UserServiceStatus(_) => "User Service Status",
        Component::SSLCerts(_) => "SSL Certificate",
        Component::Uptime(_) => "Uptime",
        Component::Weather(_) => "Weather",
    }
}

fn error_line_exec(label: &str, msg: &str) -> (r: String)
    ensures
        r@ == error_line(label@, msg@),
{
    let mut s = label.to_owned();
    s.append(" error: ");
    s.append(msg);
    s
}

/// A two-line section: the labeled error line and the blank separator.
fn error_section(label: &str, msg: &str) -> (out: Vec<String>)
    ensures
        out.deep_view() =~= seq![error_line(label@, msg@), Seq::<char>::empty()],
{
    let mut out: Vec<String> = Vec::new();
    out.push(error_line_exec(label, msg));
    out.push(String::new());
    out
}

impl Component {
    /// The print phase: renders the panel from its gathered data, in the
    /// panel's output slot, and consumes the component so that no instance
    /// renders twice.  A failure stays inside this panel's section.
    #[allow(unused_variables)]
    pub fn print(self, global_config: &GlobalConfig, width: Option<usize>, data: PanelData) -> (out:
        Vec<String>)
        ensures
            out.deep_view() == print_spec(self, *global_config, width, data),
    {
        let label = kind_label_exec(&self);
        match self {
            Component::SSLCerts(cfg) => match data {
                PanelData::Certs(now, files) => {
                    if files.len() == cfg.certs.len() {
                        match cfg.print_or_error(global_config, now, files) {
                            Ok(lines) => {
                                let mut out = lines;
                                let ghost body = out.deep_view();
                                out.push(String::new());
                                proof {
                                    assert(out.deep_view() =~= body + seq![Seq::<char>::empty()]);
                                }
                                out
                            },
                            Err(e) => {
                                let msg = e.message();
                                error_section(label, msg.as_str())
                            },
                        }
                    } else {
                        error_section(label, "missing panel data")
                    }
                },
                PanelData::Lines(_) => error_section(label, "missing panel data"),
            },
            c => match data {
                PanelData::Lines(Ok(ls)) => {
                    let mut out = ls;
                    let ghost body = out.deep_view();
                    out.push(String::new());
                    proof {
                        assert(out.deep_view() =~= body + seq![Seq::<char>::empty()]);
                    }
                    out
                },
                PanelData::Lines(Err(e)) => error_section(label, e.as_str()),
                PanelData::Certs(_, _) => error_section(label, "missing panel data"),
            },
        }
    }
}

/// The print phase driven across the prepared components, strictly in
/// order, each paired with its gathered data; every panel is rendered
/// against the same negotiated width, which is fixed before the first
/// print.  One section comes out per panel, whatever failed inside any of
/// them.
pub fn compose_report(
    components: Vec<Component>,
    global_config: &GlobalConfig,
    width: Option<usize>,
    data: Vec<PanelData>,
) -> (sections: Vec<Vec<String>>)
    requires
        data@.len() == components@.len(),
    ensures
        sections@.len() == components@.len(),
        forall|i: int|
            0 <= i < components@.len() ==> (#[trigger] sections@[i]).deep_view() == print_spec(
                components@[i],
                *global_config,
                width,
                data@[i],
            ),
{
    let ghost orig_c = components@;
    let ghost orig_d = data@;
    let mut comps = components;
    let mut rest_d = data;
    let total: usize = comps.len();
    let mut sections: Vec<Vec<String>> = Vec::new();
    let mut i: usize = 0;
    proof {
        assert(comps@ =~= orig_c.skip(0));
        assert(rest_d@ =~= orig_d.skip(0));
    }
    while comps.len() > 0
        invariant
            orig_c.len() == total as int,
            orig_d.len() == orig_c.len(),
            i + comps@.len() == orig_c.len(),
            comps@ == orig_c.skip(i as int),
            rest_d@ == orig_d.skip(i as int),
            sections@.len() == i,
            forall|j: int|
                0 <= j < i ==> (#[trigger] sections@[j]).deep_view() == print_spec(
                    orig_c[j],
                    *global_config,
                    width,
                    orig_d[j],
                ),
        decreases comps@.len(),
    {
        let ghost pc = comps@;
        let ghost pd = rest_d@;
        let c = comps.remove(0);
        let d = rest_d.remove(0);
        proof {
            assert(pc[0] == orig_c[i as int]);
            assert(pd[0] == orig_d[i as int]);
            assert(comps@ =~= orig_c.skip(i + 1));
            assert(rest_d@ =~= orig_d.skip(i + 1));
        }
        let s = c.print(global_config, width, d);
        sections.push(s);
        i = i + 1;
    }
    sections
}

/// Law: the prepare phase is a pure function of the configuration: two
/// configurations with the same image yield constraints with identical
/// minimum widths, whatever the global settings.
pub proof fn lemma_prepare_idempotent(
    c1: ComponentConfig,
    c2: ComponentConfig,
    g1: GlobalConfig,
    g2: GlobalConfig,
)
    requires
        cc_view(c1) == cc_view(c2),
    ensures
        constraints_of(cc_view(c1)) == constraints_of(cc_view(c2)),
{
}

/// Law: a generic panel whose data gathering failed prints exactly one
/// labeled error line, then the blank separator, whatever the width; the
/// failure reaches no other panel's section, and the composed report keeps
/// one section per panel.
pub proof fn lemma_failed_probe_prints_one_line(
    c: Component,
    g: GlobalConfig,
    width: Option<usize>,
    e: String,
)
    requires
        !(c is SSLCerts),
    ensures
        print_spec(c, g, width, PanelData::Lines(Err(e))) =~= seq![
            error_line(kind_label(component_view(c)), e@),
            Seq::<char>::empty(),
        ],
{
}

} // verus!
