//! What the monitor reads from Docker about containers, and the decisions it
//! takes from it: which container is Gluetun, which containers depend on its
//! network namespace, whether Gluetun is up, and which dependents joined the
//! namespace before Gluetun last started.
use vstd::prelude::*;
use vstd::string::StrSliceExecFns;
use vstd::utf8::{encode_utf8, is_char_boundary};
use crate::text::{append_str, chars_of, owned, string_of_range};

verus! {

/// One entry of Docker's container list.
#[derive(Debug)]
pub struct ContainerSummary {
    pub id: Option<String>,
    pub names: Option<Vec<String>>,
    /// The network mode of the container's host configuration.
    pub network_mode: Option<String>,
}

/// A container's health-check status, as Docker reports it.
#[derive(PartialEq, Eq, Structural, Debug, Clone, Copy)]
pub enum HealthStatus {
    Empty,
    Disabled,
    Starting,
    Healthy,
    Unhealthy,
}

/// The state part of a container's inspection.
#[derive(Debug)]
pub struct ContainerState {
    pub running: Option<bool>,
    pub started_at: Option<String>,
    /// The status of the health check, where the container has one.
    pub health: Option<HealthStatus>,
}

pub open spec fn text_of(o: Option<String>) -> Option<Seq<char>> {
    match o {
        Some(s) => Some(s@),
        None => None,
    }
}

/// Docker lists container `c` under the name `name`.
pub open spec fn has_name(c: ContainerSummary, name: Seq<char>) -> bool {
    match c.names {
        Some(ns) => ns.deep_view().contains("/"@ + name),
        None => false,
    }
}

/// The index of the first container listed under `name`.
pub open spec fn first_named(cs: Seq<ContainerSummary>, name: Seq<char>) -> Option<int>
    decreases cs.len(),
{
    if cs.len() == 0 {
        None
    } else if has_name(cs[0], name) {
        Some(0)
    } else {
        match first_named(cs.drop_first(), name) {
            Some(i) => Some(i + 1),
            None => None,
        }
    }
}

/// The id of the first container listed under `name`, where it has one.
pub open spec fn container_id(cs: Seq<ContainerSummary>, name: Seq<char>) -> Option<Seq<char>> {
    match first_named(cs, name) {
        Some(i) => text_of(cs[i].id),
        None => None,
    }
}

proof fn lemma_first_named_range(cs: Seq<ContainerSummary>, name: Seq<char>)
    ensures
        first_named(cs, name) matches Some(i) ==> 0 <= i < cs.len() && has_name(cs[i], name),
        first_named(cs, name) is None ==> forall|k: int| 0 <= k < cs.len() ==> !has_name(#[trigger] cs[k], name),
    decreases cs.len(),
{
    if cs.len() > 0 && !has_name(cs[0], name) {
        lemma_first_named_range(cs.drop_first(), name);
        if first_named(cs, name) is None {
            assert forall|k: int| 0 <= k < cs.len() implies !has_name(#[trigger] cs[k], name) by {
                if k > 0 {
                    assert(cs[k] == cs.drop_first()[k - 1]);
                }
            }
        }
    }
}

fn names_include(names: &Vec<String>, wanted: &String) -> (b: bool)
    ensures
        b == names.deep_view().contains(wanted@),
{
    let mut i: usize = 0;
    while i < names.len()
        invariant
            i <= names@.len(),
            forall|k: int| 0 <= k < i ==> names.deep_view()[k] != wanted@,
        decreases names.len() - i,
    {
        if names[i] == *wanted {
            assert(names.deep_view()[i as int] == wanted@);
            return true;
        }
        i = i + 1;
    }
    false
}

fn is_named(c: &ContainerSummary, name: &str) -> (b: bool)
    ensures
        b == has_name(*c, name@),
{
    let mut wanted = owned("/");
    append_str(&mut wanted, name);
    match &c.names {
        Some(ns) => names_include(ns, &wanted),
        None => false,
    }
}

fn position_named(containers: &Vec<ContainerSummary>, name: &str) -> (r: Option<usize>)
    ensures
        r is None <==> first_named(containers@, name@) is None,
        r matches Some(k) ==> first_named(containers@, name@) == Some(k as int),
{
    let mut i: usize = 0;
    assert(containers@.skip(0) == containers@);
    while i < containers.len()
        invariant
            i <= containers@.len(),
            first_named(containers@, name@) == match first_named(containers@.skip(i as int), name@) {
                Some(k) => Some(k + i),
                None => None::<int>,
            },
        decreases containers.len() - i,
    {
        assert(containers@.skip(i as int)[0] == containers@[i as int]);
        assert(containers@.skip(i as int).drop_first() == containers@.skip(i + 1));
        if is_named(&containers[i], name) {
            return Some(i);
        }
        i = i + 1;
    }
    None
}

/// Finds the id of the container named `name` in Docker's container list.
pub fn find_container(containers: &Vec<ContainerSummary>, name: &str) -> (id: Option<String>)
    ensures
        text_of(id) == container_id(containers@, name@),
{
    proof {
        lemma_first_named_range(containers@, name@);
    }
    match position_named(containers, name) {
        Some(i) => match &containers[i].id {
            Some(id) => Some(id.clone()),
            None => None,
        },
        None => None,
    }
}

/// Whether Gluetun can be taken as up: its health check reports healthy, or,
/// where it has no health check, it is running.
pub open spec fn is_up(state: Option<ContainerState>) -> bool {
    match state {
        Some(s) => match s.health {
            Some(h) => h == HealthStatus::Healthy,
            None => s.running == Some(true),
        },
        None => false,
    }
}

/// Judges one inspection of the container that is being waited for.
pub fn container_is_up(state: &Option<ContainerState>) -> (up: bool)
    ensures
        up == is_up(*state),
{
    match state {
        Some(s) => match s.health {
            Some(h) => h == HealthStatus::Healthy,
            None => match s.running {
                Some(r) => r,
                None => false,
            },
        },
        None => false,
    }
}

/// The instant an RFC 3339 timestamp denotes, as Unix seconds and the
/// nanoseconds within that second, or `None` where the text is not one.
pub uninterp spec fn rfc3339_instant(text: Seq<char>) -> Option<(i64, u32)>;

/// Calls `chrono::DateTime::parse_from_rfc3339`. Claims that it gives the
/// instant `rfc3339_instant` names, as `timestamp()` and
/// `timestamp_subsec_nanos()`; chrono documents that these two determine the
/// date-time, and its ordering compares the true time, so comparing the pairs
/// in order compares the instants.
#[verifier::external_body]
pub fn parse_rfc3339(text: &str) -> (r: Option<(i64, u32)>)
    ensures
        r == rfc3339_instant(text@),
{
    match chrono::DateTime::parse_from_rfc3339(text) {
        Ok(t) => Some((t.timestamp(), t.timestamp_subsec_nanos())),
        Err(_) => None,
    }
}

/// `a` is strictly earlier than `b`.
pub open spec fn earlier(a: (i64, u32), b: (i64, u32)) -> bool {
    a.0 < b.0 || (a.0 == b.0 && a.1 < b.1)
}

/// When a running container last started, where Docker says it runs and
/// gives a start time that reads as RFC 3339.
pub open spec fn running_since_spec(state: Option<ContainerState>) -> Option<(i64, u32)> {
    match state {
        Some(s) => if s.running == Some(true) {
            match s.started_at {
                Some(t) => rfc3339_instant(t@),
                None => None,
            }
        } else {
            None
        },
        None => None,
    }
}

/// When the inspected container last started, if it is running.
pub fn running_since(state: &Option<ContainerState>) -> (r: Option<(i64, u32)>)
    ensures
        r == running_since_spec(*state),
{
    match state {
        Some(s) => {
            let running = match s.running {
                Some(b) => b,
                None => false,
            };
            if !running {
                return None;
            }
            match &s.started_at {
                Some(t) => parse_rfc3339(t.as_str()),
                None => None,
            }
        },
        None => None,
    }
}

/// The dependents, in order, that run and started before `reference`.
pub open spec fn stale_dependents(
    reference: (i64, u32),
    names: Seq<Seq<char>>,
    states: Seq<Option<ContainerState>>,
) -> Seq<Seq<char>>
    decreases names.len(),
{
    if names.len() == 0 {
        Seq::empty()
    } else {
        let r = stale_dependents(reference, names.drop_last(), states.drop_last());
        match running_since_spec(states[names.len() - 1]) {
            Some(t) => if earlier(t, reference) {
                r.push(names.last())
            } else {
                r
            },
            None => r,
        }
    }
}

/// The dependents whose network namespace is older than Gluetun's: those
/// that run and started before Gluetun did (`reference`). `states[i]` is the
/// inspection of `names[i]`.
pub fn out_of_sync_dependents(
    reference: (i64, u32),
    names: &Vec<String>,
    states: &Vec<Option<ContainerState>>,
) -> (stale: Vec<String>)
    requires
        names@.len() == states@.len(),
    ensures
        stale.deep_view() == stale_dependents(reference, names.deep_view(), states@),
{
    let mut stale: Vec<String> = Vec::new();
    let mut i: usize = 0;
    while i < names.len()
        invariant
            names@.len() == states@.len(),
            i <= names@.len(),
            stale.deep_view() == stale_dependents(
                reference,
                names.deep_view().take(i as int),
                states@.take(i as int),
            ),
        decreases names.len() - i,
    {
        assert(names.deep_view().take(i + 1).drop_last() == names.deep_view().take(i as int));
        assert(states@.take(i + 1).drop_last() == states@.take(i as int));
        assert(states@.take(i + 1)[i as int] == states@[i as int]);
        match running_since(&states[i]) {
            Some(t) => {
                if t.0 < reference.0 || (t.0 == reference.0 && t.1 < reference.1) {
                    stale.push(names[i].clone());
                }
            },
            None => {},
        }
        i = i + 1;
    }
    assert(names.deep_view().take(i as int) == names.deep_view());
    assert(states@.take(i as int) == states@);
    stale
}


/// `s` without its leading slashes (`trim_start_matches('/')`).
pub open spec fn strip_slashes(s: Seq<char>) -> Seq<char>
    decreases s.len(),
{
    if s.len() > 0 && s[0] == '/' {
        strip_slashes(s.drop_first())
    } else {
        s
    }
}

/// The name a container goes by: its first listed name without leading
/// slashes, or empty text.
pub open spec fn display_name(c: ContainerSummary) -> Seq<char> {
    match c.names {
        Some(ns) => if ns@.len() > 0 {
            strip_slashes(ns@[0]@)
        } else {
            Seq::empty()
        },
        None => Seq::empty(),
    }
}

/// A container's network mode, or empty text.
pub open spec fn mode_of(c: ContainerSummary) -> Seq<char> {
    match c.network_mode {
        Some(m) => m@,
        None => Seq::empty(),
    }
}

pub open spec fn min12(n: nat) -> nat {
    if n < 12 {
        n
    } else {
        12
    }
}

/// The first twelve bytes of an id: Docker's short form of it.
pub open spec fn short_id_bytes(id: Seq<char>) -> Seq<u8> {
    encode_utf8(id).take(min12(encode_utf8(id).len()) as int)
}

/// The short form of `id` ends between two characters (`str::is_char_boundary`
/// holds at its end), so that it can be taken as text.
pub open spec fn short_id_is_text(id: Seq<char>) -> bool {
    is_char_boundary(encode_utf8(id), min12(encode_utf8(id).len()) as int)
}

/// `prefix` begins `b`.
pub open spec fn bytes_begin_with(b: Seq<u8>, prefix: Seq<u8>) -> bool {
    prefix.len() <= b.len() && b.take(prefix.len() as int) == prefix
}

/// Network mode `mode` shares the namespace of Gluetun, named `name` and
/// with id `id`: `container:` followed by the name, the id, or text that
/// starts with the id's short form.
pub open spec fn joins_namespace(mode: Seq<char>, name: Seq<char>, id: Option<Seq<char>>) -> bool {
    ||| mode == "container:"@ + name
    ||| (id matches Some(i) && mode == "container:"@ + i)
    ||| (id matches Some(i) && bytes_begin_with(
        encode_utf8(mode),
        encode_utf8("container:"@) + short_id_bytes(i),
    ))
}

/// The names of the containers, in list order, that use the network
/// namespace of Gluetun (named `name`, with id `id`), Gluetun itself left out.
pub open spec fn dependents_in(cs: Seq<ContainerSummary>, name: Seq<char>, id: Option<Seq<char>>) -> Seq<Seq<char>>
    decreases cs.len(),
{
    if cs.len() == 0 {
        Seq::empty()
    } else {
        let r = dependents_in(cs.drop_last(), name, id);
        let c = cs.last();
        if display_name(c) != name && joins_namespace(mode_of(c), name, id) {
            r.push(display_name(c))
        } else {
            r
        }
    }
}


/// A container is taken as Gluetun's dependent only for its network mode:
/// `container:` followed by exactly Gluetun's name; or, where Gluetun's id is
/// known, by exactly that id, or by text that starts with the id's first
/// twelve bytes. A mode that names another container whose name merely
/// begins like Gluetun's makes no dependent. Every name found belongs to such
/// a container, which is not Gluetun itself.
pub proof fn law_dependents_share_namespace(
    cs: Seq<ContainerSummary>,
    name: Seq<char>,
    id: Option<Seq<char>>,
    d: Seq<char>,
)
    requires
        dependents_in(cs, name, id).contains(d),
    ensures
        d != name,
        exists|j: int| 0 <= j < cs.len() && #[trigger] display_name(cs[j]) == d && ({
            let mode = mode_of(cs[j]);
            ||| mode == "container:"@ + name
            ||| (id matches Some(i) && mode == "container:"@ + i)
            ||| (id matches Some(i) && ({
                let prefix = encode_utf8("container:"@) + encode_utf8(i).take(
                    if encode_utf8(i).len() < 12 {
                        encode_utf8(i).len() as int
                    } else {
                        12
                    },
                );
                prefix.len() <= encode_utf8(mode).len() && encode_utf8(mode).take(prefix.len() as int)
                    == prefix
            }))
        }),
    decreases cs.len(),
{
    let r = dependents_in(cs.drop_last(), name, id);
    let c = cs.last();
    if r.contains(d) {
        law_dependents_share_namespace(cs.drop_last(), name, id, d);
        let j = choose|j: int| 0 <= j < cs.drop_last().len() && #[trigger] display_name(cs.drop_last()[j]) == d && ({
            let mode = mode_of(cs.drop_last()[j]);
            ||| mode == "container:"@ + name
            ||| (id matches Some(i) && mode == "container:"@ + i)
            ||| (id matches Some(i) && ({
                let prefix = encode_utf8("container:"@) + encode_utf8(i).take(
                    if encode_utf8(i).len() < 12 {
                        encode_utf8(i).len() as int
                    } else {
                        12
                    },
                );
                prefix.len() <= encode_utf8(mode).len() && encode_utf8(mode).take(prefix.len() as int)
                    == prefix
            }))
        });
        assert(cs.drop_last()[j] == cs[j]);
    } else {
        assert(display_name(c) != name && joins_namespace(mode_of(c), name, id));
        assert(display_name(c) == d);
        assert(cs[cs.len() - 1] == c);
    }
}

fn strip_leading_slashes(s: &String) -> (r: String)
    ensures
        r@ == strip_slashes(s@),
{
    let v = chars_of(s.as_str());
    let mut i: usize = 0;
    assert(v@.skip(0) == v@);
    while i < v.len() && v[i] == '/'
        invariant
            i <= v@.len(),
            strip_slashes(v@) == strip_slashes(v@.skip(i as int)),
        decreases v.len() - i,
    {
        assert(v@.skip(i as int).drop_first() == v@.skip(i + 1));
        i = i + 1;
    }
    assert(v@.skip(i as int) == v@.subrange(i as int, v@.len() as int));
    string_of_range(&v, i, v.len())
}

fn name_of(c: &ContainerSummary) -> (r: String)
    ensures
        r@ == display_name(*c),
{
    match &c.names {
        Some(ns) => if ns.len() > 0 {
            strip_leading_slashes(&ns[0])
        } else {
            String::new()
        },
        None => String::new(),
    }
}

fn mode_text(c: &ContainerSummary) -> (r: String)
    ensures
        r@ == mode_of(*c),
{
    match &c.network_mode {
        Some(m) => m.clone(),
        None => String::new(),
    }
}

fn begins_with(b: &Vec<u8>, prefix: &Vec<u8>) -> (r: bool)
    ensures
        r == bytes_begin_with(b@, prefix@),
{
    if prefix.len() > b.len() {
        return false;
    }
    let mut i: usize = 0;
    while i < prefix.len()
        invariant
            prefix@.len() <= b@.len(),
            i <= prefix@.len(),
            forall|k: int| 0 <= k < i ==> b@[k] == prefix@[k],
        decreases prefix.len() - i,
    {
        if b[i] != prefix[i] {
            assert(b@.take(prefix@.len() as int)[i as int] != prefix@[i as int]);
            return false;
        }
        i = i + 1;
    }
    assert(b@.take(prefix@.len() as int) == prefix@);
    true
}


/// Whether the listing meets what `discover_dependents` needs: the short
/// form of Gluetun's id, if Gluetun is listed with one, is text.
pub fn short_id_usable(containers: &Vec<ContainerSummary>, gluetun_name: &str) -> (ok: bool)
    ensures
        ok == (container_id(containers@, gluetun_name@) matches Some(id) ==> short_id_is_text(id)),
{
    match find_container(containers, gluetun_name) {
        Some(id) => {
            let n = id.as_str().as_bytes_vec().len();
            let k = if n < 12 { n } else { 12 };
            id.as_str().is_char_boundary(k)
        },
        None => true,
    }
}

/// Finds the containers that use Gluetun's network namespace
/// (`network_mode: container:<name or id>`) in Docker's container list,
/// stopped ones included. Gluetun is found in the same list by its name.
pub fn discover_dependents(containers: &Vec<ContainerSummary>, gluetun_name: &str) -> (deps: Vec<String>)
    requires
        container_id(containers@, gluetun_name@) matches Some(id) ==> short_id_is_text(id),
    ensures
        deps.deep_view() == dependents_in(
            containers@,
            gluetun_name@,
            container_id(containers@, gluetun_name@),
        ),
{
    let gluetun_id = find_container(containers, gluetun_name);
    let ghost gid = container_id(containers@, gluetun_name@);
    let mut by_name = owned("container:");
    append_str(&mut by_name, gluetun_name);
    let mut by_id = owned("container:");
    let mut short_prefix: Vec<u8> = "container:".as_bytes_vec();
    match &gluetun_id {
        Some(id) => {
            append_str(&mut by_id, id.as_str());
            let id_bytes = id.as_str().as_bytes_vec();
            let n = if id_bytes.len() < 12 { id_bytes.len() } else { 12 };
            let mut k: usize = 0;
            let ghost base = short_prefix@;
            while k < n
                invariant
                    n <= id_bytes@.len(),
                    k <= n,
                    short_prefix@ == base + id_bytes@.take(k as int),
                decreases n - k,
            {
                short_prefix.push(id_bytes[k]);
                assert(id_bytes@.take(k + 1) == id_bytes@.take(k as int).push(id_bytes@[k as int]));
                k = k + 1;
            }
        },
        None => {},
    }
    let mut deps: Vec<String> = Vec::new();
    let mut i: usize = 0;
    while i < containers.len()
        invariant
            i <= containers@.len(),
            text_of(gluetun_id) == gid,
            by_name@ == "container:"@ + gluetun_name@,
            gid matches Some(id) ==> by_id@ == "container:"@ + id,
            gid matches Some(id) ==> short_prefix@ == encode_utf8("container:"@) + short_id_bytes(id),
            deps.deep_view() == dependents_in(containers@.take(i as int), gluetun_name@, gid),
        decreases containers.len() - i,
    {
        let c = &containers[i];
        assert(containers@.take(i + 1).drop_last() == containers@.take(i as int));
        assert(containers@.take(i + 1).last() == containers@[i as int]);
        let name = name_of(c);
        let mode = mode_text(c);
        let mut joins = mode == by_name;
        if !joins {
            if gluetun_id.is_some() {
                joins = mode == by_id;
                if !joins {
                    let mode_bytes = mode.as_str().as_bytes_vec();
                    joins = begins_with(&mode_bytes, &short_prefix);
                }
            }
        }
        let is_gluetun = name == owned(gluetun_name);
        if !is_gluetun && joins {
            deps.push(name);
        }
        i = i + 1;
    }
    assert(containers@.take(i as int) == containers@);
    deps
}

} // verus!
