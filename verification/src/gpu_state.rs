//! A snapshot of every sign that the driver has initialized a GPU.

use crate::text;
use crate::text::{chars_of, contains_chars, push_chars, push_decimal, split_lines, trimmed};
use vstd::prelude::*;

verus! {

/// The control device, which comes with the driver's module.
pub const CONTROL_DEVICE: &'static str = "/dev/nvidiactl";

/// The device of the UVM module.
pub const UVM_DEVICE: &'static str = "/dev/nvidia-uvm";

/// What the path of a GPU's device node starts with. Its number follows.
pub const NODE_PREFIX: &'static str = "/dev/nvidia";

/// The directory with an entry for each GPU that was probed.
pub const GPUS_DIR: &'static str = "/proc/driver/nvidia/gpus";

/// The file that the entry of a GPU holds its information in.
pub const INFORMATION_FILE: &'static str = "information";

/// The driver's version file.
pub const VERSION_FILE: &'static str = "/proc/driver/nvidia/version";

/// What `{:?}` prints for a list of strings.
pub uninterp spec fn debug_text(list: Seq<Seq<char>>) -> Seq<char>;

/// The debug format of a list of strings, as `format!` with `{:?}` prints it for a
/// `Vec<String>`: a function of the strings alone. Which characters are escaped,
/// and how, is not stated.
#[verifier::external_body]
fn debug_list(list: &Vec<String>) -> (r: String)
    ensures
        r@ == debug_text(text::texts(list@)),
{
    format!("{:?}", list)
}

/// What was found of the GPUs. An `Err` holds the text of the error.
#[derive(Debug)]
pub struct Signals {
    /// Whether [`CONTROL_DEVICE`] exists.
    pub ctl: bool,
    /// Whether [`UVM_DEVICE`] exists.
    pub uvm: bool,
    /// Whether the device node of each number exists, which comes with its GPU.
    pub nodes: [bool; 32],
    /// The names of the entries of [`GPUS_DIR`].
    pub gpus: Result<Vec<String>, String>,
    /// What [`VERSION_FILE`] holds.
    pub version: Result<String, String>,
    /// The name of each entry of [`GPUS_DIR`], and what its [`INFORMATION_FILE`] holds.
    pub information: Vec<(String, Result<String, String>)>,
}

/// The path of the device node of number `n`.
pub open spec fn node_path(n: nat) -> Seq<char> {
    NODE_PREFIX@ + text::decimal(n)
}

/// The paths of the first `n` device nodes that exist.
pub open spec fn node_paths(nodes: Seq<bool>, n: nat) -> Seq<Seq<char>>
    decreases n,
{
    if n == 0 {
        seq![]
    } else if nodes[n - 1] {
        node_paths(nodes, (n - 1) as nat).push(node_path((n - 1) as nat))
    } else {
        node_paths(nodes, (n - 1) as nat)
    }
}

/// The first line of the version file.
pub open spec fn first_line(file: Seq<char>) -> Seq<char> {
    if text::lines(file).len() > 0 {
        text::lines(file)[0]
    } else {
        "<empty>"@
    }
}

/// The first of the lines `ls` that holds `key`, without white space at either
/// end, or `default` where none does.
pub open spec fn first_with(ls: Seq<Seq<char>>, key: Seq<char>, default: Seq<char>) -> Seq<char>
    decreases ls.len(),
{
    if ls.len() == 0 {
        default
    } else if text::has_substring(ls[0], key) {
        text::trim(ls[0])
    } else {
        first_with(ls.drop_first(), key, default)
    }
}

/// What an information file says of the minor number of its GPU's device.
pub open spec fn minor_line(file: Seq<char>) -> Seq<char> {
    first_with(text::lines(file), "Device Minor"@, "<no Device Minor line>"@)
}

/// What each line of the snapshot starts with.
pub open spec fn heading(context: Seq<char>) -> Seq<char> {
    "gpu_init_state ["@ + context + "]: "@
}

/// How a flag is printed.
pub open spec fn bool_text(b: bool) -> Seq<char> {
    if b {
        "true"@
    } else {
        "false"@
    }
}

/// The line on the device nodes, with their list as `list`.
pub open spec fn nodes_text(context: Seq<char>, ctl: bool, uvm: bool, list: Seq<char>) -> Seq<
    char,
> {
    heading(context) + CONTROL_DEVICE@ + "="@ + bool_text(ctl) + " "@ + UVM_DEVICE@ + "="@
        + bool_text(uvm) + " "@ + NODE_PREFIX@ + "<N>="@ + list
}

/// The line on the probed GPUs, with their list, or the error, as text.
pub open spec fn gpus_text(context: Seq<char>, list: Result<Seq<char>, Seq<char>>) -> Seq<char> {
    match list {
        Ok(list) => heading(context) + GPUS_DIR@ + " entries="@ + list,
        Err(e) => heading(context) + GPUS_DIR@ + " unreadable: "@ + e,
    }
}

/// The line on the driver's version.
pub open spec fn version_text(context: Seq<char>, file: Result<Seq<char>, Seq<char>>) -> Seq<char> {
    match file {
        Ok(file) => heading(context) + VERSION_FILE@ + " first line: "@ + first_line(file),
        Err(e) => heading(context) + VERSION_FILE@ + " unreadable: "@ + e,
    }
}

/// The line on one GPU.
pub open spec fn information_text(
    context: Seq<char>,
    name: Seq<char>,
    file: Result<Seq<char>, Seq<char>>,
) -> Seq<char> {
    match file {
        Ok(file) => heading(context) + "gpu "@ + name + " information: "@ + minor_line(file),
        Err(e) => heading(context) + "gpu "@ + name + " information unreadable: "@ + e,
    }
}

/// The texts of a result.
pub open spec fn result_text(r: Result<String, String>) -> Result<Seq<char>, Seq<char>> {
    match r {
        Ok(s) => Ok(s@),
        Err(e) => Err(e@),
    }
}

/// The lines on each GPU.
pub open spec fn information_lines(
    context: Seq<char>,
    information: Seq<(String, Result<String, String>)>,
) -> Seq<Seq<char>> {
    Seq::new(
        information.len(),
        |i: int| information_text(context, information[i].0@, result_text(information[i].1)),
    )
}

/// The lines of the snapshot.
pub open spec fn snapshot(context: Seq<char>, signals: Signals) -> Seq<Seq<char>> {
    seq![
        heading(context) + "collecting signals"@,
        nodes_text(
            context,
            signals.ctl,
            signals.uvm,
            debug_text(node_paths(signals.nodes@, 32)),
        ),
        gpus_text(
            context,
            match signals.gpus {
                Ok(names) => Ok(debug_text(text::texts(names@))),
                Err(e) => Err(e@),
            },
        ),
        version_text(context, result_text(signals.version)),
    ] + information_lines(context, signals.information@)
}

// ---------------------------------------------------------------------------
// Code
// ---------------------------------------------------------------------------

/// The start of a line.
fn started(context: &str) -> (r: String)
    ensures
        r@ == heading(context@),
{
    let mut r = String::new();
    r.append("gpu_init_state [");
    r.append(context);
    r.append("]: ");
    assert(r@ == heading(context@));
    r
}

/// Appends a flag.
fn push_bool(out: &mut String, b: bool)
    ensures
        final(out)@ == old(out)@ + bool_text(b),
{
    if b {
        out.append("true");
    } else {
        out.append("false");
    }
}

/// The path of the device node of number `n`.
pub fn device_node(n: u64) -> (r: String)
    ensures
        r@ == node_path(n as nat),
{
    let mut r = NODE_PREFIX.to_owned();
    push_decimal(&mut r, n);
    r
}

/// The paths of the device nodes that exist.
pub fn device_nodes(nodes: &[bool; 32]) -> (r: Vec<String>)
    ensures
        text::texts(r@) == node_paths(nodes@, 32),
{
    let mut r: Vec<String> = Vec::new();
    assert(text::texts(r@) == node_paths(nodes@, 0));
    for n in 0..32usize
        invariant
            text::texts(r@) == node_paths(nodes@, n as nat),
    {
        if nodes[n] {
            let path = device_node(n as u64);
            let ghost before = text::texts(r@);
            r.push(path);
            assert(text::texts(r@) == before.push(path@));
        }
    }
    r
}

/// The line on the device nodes, with their list as `list`.
pub fn nodes_line(context: &str, ctl: bool, uvm: bool, list: &str) -> (r: String)
    ensures
        r@ == nodes_text(context@, ctl, uvm, list@),
{
    let mut r = started(context);
    r.append(CONTROL_DEVICE);
    r.append("=");
    push_bool(&mut r, ctl);
    r.append(" ");
    r.append(UVM_DEVICE);
    r.append("=");
    push_bool(&mut r, uvm);
    r.append(" ");
    r.append(NODE_PREFIX);
    r.append("<N>=");
    r.append(list);
    r
}

/// The line on the probed GPUs, with their list, or the error, as text.
pub fn gpus_line(context: &str, list: Result<&str, &str>) -> (r: String)
    ensures
        r@ == gpus_text(
            context@,
            match list {
                Ok(list) => Ok(list@),
                Err(e) => Err(e@),
            },
        ),
{
    let mut r = started(context);
    r.append(GPUS_DIR);
    match list {
        Ok(list) => {
            r.append(" entries=");
            r.append(list);
        },
        Err(e) => {
            r.append(" unreadable: ");
            r.append(e);
        },
    }
    r
}

/// The line on the driver's version.
pub fn version_line(context: &str, file: &Result<String, String>) -> (r: String)
    ensures
        r@ == version_text(context@, result_text(*file)),
{
    let mut r = started(context);
    r.append(VERSION_FILE);
    match file {
        Ok(file) => {
            r.append(" first line: ");
            let ls = split_lines(&chars_of(file.as_str()));
            if ls.len() > 0 {
                push_chars(&mut r, &ls[0]);
                assert(text::rows(ls@)[0] == ls@[0]@);
            } else {
                r.append("<empty>");
            }
        },
        Err(e) => {
            r.append(" unreadable: ");
            r.append(e.as_str());
        },
    }
    r
}

/// Appends what the information file says of the minor number.
fn push_minor(out: &mut String, file: &str)
    ensures
        final(out)@ == old(out)@ + minor_line(file@),
{
    let ls = split_lines(&chars_of(file));
    let key = chars_of("Device Minor");
    let ghost default = "<no Device Minor line>"@;
    let ghost all = text::rows(ls@);
    assert(all.skip(0) == all);
    for i in 0..ls.len()
        invariant
            key@ == "Device Minor"@,
            all == text::rows(ls@),
            all == text::lines(file@),
            default == "<no Device Minor line>"@,
            out@ == old(out)@,
            minor_line(file@) == first_with(all.skip(i as int), key@, default),
    {
        assert(all.skip(i as int)[0] == ls@[i as int]@);
        if contains_chars(&ls[i], &key) {
            push_chars(out, &trimmed(&ls[i]));
            return;
        }
        assert(all.skip(i as int).drop_first() == all.skip(i + 1));
    }
    out.append("<no Device Minor line>");
}

/// The line on one GPU.
pub fn information_line(context: &str, name: &str, file: &Result<String, String>) -> (r: String)
    ensures
        r@ == information_text(context@, name@, result_text(*file)),
{
    let mut r = started(context);
    r.append("gpu ");
    r.append(name);
    match file {
        Ok(file) => {
            r.append(" information: ");
            push_minor(&mut r, file.as_str());
        },
        Err(e) => {
            r.append(" information unreadable: ");
            r.append(e.as_str());
        },
    }
    r
}

/// The lines to log for the snapshot `signals`, under the heading `context`.
pub fn log_gpu_init_state(context: &str, signals: &Signals) -> (r: Vec<String>)
    ensures
        text::texts(r@) == snapshot(context@, *signals),
{
    let mut first = started(context);
    first.append("collecting signals");
    let nodes = device_nodes(&signals.nodes);
    let gpus = match &signals.gpus {
        Ok(names) => {
            let list = debug_list(names);
            gpus_line(context, Ok(list.as_str()))
        },
        Err(e) => gpus_line(context, Err(e.as_str())),
    };
    let mut r: Vec<String> = Vec::new();
    r.push(first);
    r.push(nodes_line(context, signals.ctl, signals.uvm, debug_list(&nodes).as_str()));
    r.push(gpus);
    r.push(version_line(context, &signals.version));
    let ghost head = text::texts(r@);
    let ghost tail = information_lines(context@, signals.information@);
    assert(head + tail == snapshot(context@, *signals));
    assert(text::texts(r@) == head + tail.take(0));
    for i in 0..signals.information.len()
        invariant
            tail == information_lines(context@, signals.information@),
            text::texts(r@) == head + tail.take(i as int),
    {
        let ghost before = text::texts(r@);
        let line = information_line(
            context,
            signals.information[i].0.as_str(),
            &signals.information[i].1,
        );
        r.push(line);
        assert(text::texts(r@) == before.push(line@));
        assert(tail.take(i + 1) == tail.take(i as int).push(tail[i as int]));
        assert(text::texts(r@) == head + tail.take(i + 1));
    }
    assert(tail.take(tail.len() as int) == tail);
    r
}

// ---------------------------------------------------------------------------
// Laws
// ---------------------------------------------------------------------------

/// The path of a device node is listed exactly if the node exists.
pub proof fn law_listed_nodes_exist(nodes: Seq<bool>, k: nat, n: nat)
    requires
        k <= nodes.len(),
    ensures
        node_paths(nodes, k).contains(node_path(n)) <==> n < k && nodes[n as int],
    decreases k,
{
    if k > 0 {
        let shorter = node_paths(nodes, (k - 1) as nat);
        let path = node_path((k - 1) as nat);
        law_listed_nodes_exist(nodes, (k - 1) as nat, n);
        if nodes[k - 1] {
            let all = shorter.push(path);
            assert(all[shorter.len() as int] == path);
            if all.contains(node_path(n)) {
                let i = choose|i: int| 0 <= i < all.len() && all[i] == node_path(n);
                if i < shorter.len() {
                    assert(shorter[i] == node_path(n));
                } else {
                    let prefix = NODE_PREFIX@;
                    assert(path.skip(prefix.len() as int) == text::decimal((k - 1) as nat));
                    assert(node_path(n).skip(prefix.len() as int) == text::decimal(n));
                    text::law_decimal_is_injective((k - 1) as nat, n);
                }
            }
            if shorter.contains(node_path(n)) {
                let i = choose|i: int| 0 <= i < shorter.len() && shorter[i] == node_path(n);
                assert(all[i] == node_path(n));
            }
        }
    }
}

/// The list of device nodes goes by number: one more number adds its node at the end
/// exactly if the node exists.
pub proof fn law_next_node(nodes: Seq<bool>, n: nat)
    ensures
        node_paths(nodes, 0).len() == 0,
        node_paths(nodes, n + 1) == if nodes[n as int] {
            node_paths(nodes, n).push("/dev/nvidia"@ + text::decimal(n))
        } else {
            node_paths(nodes, n)
        },
{
}

/// What is logged of an information file: the first of its lines that holds
/// `Device Minor`, without white space at either end, or that there is none.
pub proof fn law_minor_line(file: Seq<char>, n: int)
    requires
        0 <= n <= text::lines(file).len(),
        forall|k: int|
            0 <= k < n ==> !text::has_substring(
                #[trigger] text::lines(file)[k],
                "Device Minor"@,
            ),
        n < text::lines(file).len() ==> text::has_substring(
            text::lines(file)[n],
            "Device Minor"@,
        ),
    ensures
        minor_line(file) == if n < text::lines(file).len() {
            text::trim(text::lines(file)[n])
        } else {
            "<no Device Minor line>"@
        },
{
    lemma_first_with(text::lines(file), "Device Minor"@, "<no Device Minor line>"@, n);
}

proof fn lemma_first_with(ls: Seq<Seq<char>>, key: Seq<char>, default: Seq<char>, n: int)
    requires
        0 <= n <= ls.len(),
        forall|k: int| 0 <= k < n ==> !text::has_substring(#[trigger] ls[k], key),
        n < ls.len() ==> text::has_substring(ls[n], key),
    ensures
        first_with(ls, key, default) == if n < ls.len() {
            text::trim(ls[n])
        } else {
            default
        },
    decreases n,
{
    if n > 0 {
        let rest = ls.drop_first();
        assert(!text::has_substring(ls[0], key));
        assert forall|k: int| 0 <= k < n - 1 implies !text::has_substring(
            #[trigger] rest[k],
            key,
        ) by {
            assert(rest[k] == ls[k + 1]);
        }
        lemma_first_with(rest, key, default, n - 1);
    }
}

/// The snapshot, whatever was found: each line is headed by the context; the flags are
/// those of the two devices in their places, the lists those of the nodes and the GPUs,
/// the version the first line of its file; every error is logged as it is, and each GPU
/// has its own line, in their order.
pub proof fn law_snapshot(context: Seq<char>, signals: Signals, k: int)
    ensures
        ({
            let ls = snapshot(context, signals);
            let head = "gpu_init_state ["@ + context + "]: "@;
            let yes = |b: bool|
                if b {
                    "true"@
                } else {
                    "false"@
                };
            &&& ls.len() == 4 + signals.information@.len()
            &&& ls[0] == head + "collecting signals"@
            &&& ls[1] == head + "/dev/nvidiactl"@ + "="@ + yes(signals.ctl) + " "@
                + "/dev/nvidia-uvm"@ + "="@ + yes(signals.uvm) + " "@ + "/dev/nvidia"@ + "<N>="@
                + debug_text(node_paths(signals.nodes@, 32))
            &&& match signals.gpus {
                Ok(names) => ls[2] == head + "/proc/driver/nvidia/gpus"@ + " entries="@
                    + debug_text(text::texts(names@)),
                Err(e) => ls[2] == head + "/proc/driver/nvidia/gpus"@ + " unreadable: "@ + e@,
            }
            &&& match signals.version {
                Ok(file) => ls[3] == head + "/proc/driver/nvidia/version"@ + " first line: "@ + (
                if text::lines(file@).len() > 0 {
                    text::lines(file@)[0]
                } else {
                    "<empty>"@
                }),
                Err(e) => ls[3] == head + "/proc/driver/nvidia/version"@ + " unreadable: "@ + e@,
            }
            &&& 0 <= k < signals.information@.len() ==> match signals.information@[k].1 {
                Ok(file) => ls[4 + k] == head + "gpu "@ + signals.information@[k].0@
                    + " information: "@ + minor_line(file@),
                Err(e) => ls[4 + k] == head + "gpu "@ + signals.information@[k].0@
                    + " information unreadable: "@ + e@,
            }
        }),
{
    let tail = information_lines(context, signals.information@);
    if 0 <= k < signals.information@.len() {
        assert(snapshot(context, signals)[4 + k] == tail[k]);
    }
}

} // verus!
