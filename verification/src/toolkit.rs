//! NVIDIA Container Toolkit (`nvidia-ctk`) integration.
//!
//! The toolkit writes a CDI (Container Device Interface) document, from which
//! container runtimes learn the GPU devices. Bind mounts for the IMEX
//! configuration are added to it here.

use crate::action;
use crate::action::Action;
use crate::text;
use crate::text::{
    chars_of, indent_width, is_indented, push_indent, push_lines, same_chars, split_lines, trimmed,
    trimmed_end,
};
use vstd::prelude::*;

verus! {

// ---------------------------------------------------------------------------
// Where the mounts go
// ---------------------------------------------------------------------------

/// `l` opens a `containerEdits` block at column 0, as no device's block does.
pub open spec fn opens_toplevel_edits(l: Seq<char>) -> bool {
    text::trim_end(l) == "containerEdits:"@ && text::indent(l) == 0
}

/// Line `c` of `ls` opens the last top-level `containerEdits` block.
pub open spec fn is_last_edits(ls: Seq<Seq<char>>, c: int) -> bool {
    &&& 0 <= c < ls.len()
    &&& opens_toplevel_edits(ls[c])
    &&& forall|j: int| c < j < ls.len() ==> !opens_toplevel_edits(#[trigger] ls[j])
}

/// `l` holds nothing but white space.
pub open spec fn blank(l: Seq<char>) -> bool {
    text::trim(l).len() == 0
}

/// `l` is an indented `mounts:` key.
pub open spec fn is_mounts_line(l: Seq<char>) -> bool {
    text::trim(l) == "mounts:"@ && text::indent(l) > 0
}

/// `l` is more than white space or a comment, so that its indentation counts.
pub open spec fn has_content(l: Seq<char>) -> bool {
    text::trim(l).len() > 0 && text::trim(l)[0] != '#'
}

/// Line `m` of `ls` stands in the block that line `c` opens, and no line before it
/// in the block is indented less: it belongs to that block directly.
pub open spec fn is_child(ls: Seq<Seq<char>>, c: int, m: int) -> bool {
    &&& c < m < ls.len()
    &&& forall|j: int| c < j <= m ==> blank(#[trigger] ls[j]) || text::indent(ls[j]) > 0
    &&& forall|j: int|
        c < j < m && has_content(#[trigger] ls[j]) ==> text::indent(ls[j]) >= text::indent(ls[m])
}

/// Line `m` of `ls` is the first `mounts:` key that belongs directly to the block
/// that line `c` opens.
pub open spec fn is_mounts_key_of(ls: Seq<Seq<char>>, c: int, m: int) -> bool {
    &&& is_last_edits(ls, c)
    &&& is_child(ls, c, m)
    &&& is_mounts_line(ls[m])
    &&& forall|j: int| c < j < m && is_mounts_line(#[trigger] ls[j]) ==> !is_child(ls, c, j)
}

/// Line `m` of `ls` is the `mounts:` key of the last top-level `containerEdits`
/// block.
pub open spec fn is_mounts_key(ls: Seq<Seq<char>>, m: int) -> bool {
    exists|c: int| is_mounts_key_of(ls, c, m)
}

// ---------------------------------------------------------------------------
// What is written there
// ---------------------------------------------------------------------------

/// A line of `n` spaces and the text `t`.
pub open spec fn entry_line(n: nat, t: Seq<char>) -> Seq<char> {
    text::spaces(n) + t + seq!['\n']
}

/// The read-only bind mount of path `p`, under a `mounts:` key that is indented by `n`.
pub open spec fn mount_entry(n: nat, p: Seq<char>) -> Seq<char> {
    entry_line(n + 2, "- hostPath: "@ + p) + entry_line(n + 4, "containerPath: "@ + p) + entry_line(
        n + 4,
        "options:"@,
    ) + entry_line(n + 6, "- ro"@) + entry_line(n + 6, "- nosuid"@) + entry_line(n + 6, "- nodev"@)
        + entry_line(n + 6, "- bind"@)
}

/// The mounts of the paths `ps`, in their order.
pub open spec fn mount_entries(n: nat, ps: Seq<Seq<char>>) -> Seq<char>
    decreases ps.len(),
{
    if ps.len() == 0 {
        seq![]
    } else {
        mount_entries(n, ps.drop_last()) + mount_entry(n, ps.last())
    }
}

/// The document with lines `ls` and the mounts of `ps` after its line `m`.
pub open spec fn mounts_inserted(ls: Seq<Seq<char>>, m: int, ps: Seq<Seq<char>>) -> Seq<char> {
    text::terminated(ls.subrange(0, m + 1)) + mount_entries(text::indent(ls[m]), ps) + text::terminated(
        ls.subrange(m + 1, ls.len() as int),
    )
}

/// Appends a line that is indented by `pad` more than `key`, with the texts `a` and `b`.
fn push_entry_line(out: &mut String, key: &Vec<char>, pad: &str, a: &str, b: &str)
    requires
        pad@ == text::spaces(pad@.len()),
    ensures
        final(out)@ == old(out)@ + entry_line(text::indent(key@) + pad@.len(), a@ + b@),
{
    push_indent(out, key);
    out.append(pad);
    out.append(a);
    out.append(b);
    out.push('\n');
    assert(text::spaces(text::indent(key@)) + pad@ == text::spaces(text::indent(key@) + pad@.len()));
}

/// Appends the mount of path `p` under the line `key`.
fn push_mount_entry(out: &mut String, key: &Vec<char>, p: &str)
    ensures
        final(out)@ == old(out)@ + mount_entry(text::indent(key@), p@),
{
    proof {
        reveal_strlit("  ");
        reveal_strlit("    ");
        reveal_strlit("      ");
        reveal_strlit("");
        assert("  "@ == text::spaces(2));
        assert("    "@ == text::spaces(4));
        assert("      "@ == text::spaces(6));
        assert("options:"@ + ""@ == "options:"@);
        assert("- ro"@ + ""@ == "- ro"@);
        assert("- nosuid"@ + ""@ == "- nosuid"@);
        assert("- nodev"@ + ""@ == "- nodev"@);
        assert("- bind"@ + ""@ == "- bind"@);
    }
    push_entry_line(out, key, "  ", "- hostPath: ", p);
    push_entry_line(out, key, "    ", "containerPath: ", p);
    push_entry_line(out, key, "    ", "options:", "");
    push_entry_line(out, key, "      ", "- ro", "");
    push_entry_line(out, key, "      ", "- nosuid", "");
    push_entry_line(out, key, "      ", "- nodev", "");
    push_entry_line(out, key, "      ", "- bind", "");
}

/// The index of the last top-level `containerEdits:` line.
fn find_last_edits(ls: &Vec<Vec<char>>) -> (r: Option<usize>)
    ensures
        match r {
            Some(c) => is_last_edits(text::rows(ls@), c as int),
            None => forall|j: int|
                0 <= j < ls@.len() ==> !opens_toplevel_edits(#[trigger] text::rows(ls@)[j]),
        },
{
    let wanted = chars_of("containerEdits:");
    let mut i: usize = ls.len();
    while i > 0
        invariant
            i <= ls@.len(),
            wanted@ == "containerEdits:"@,
            forall|j: int| i <= j < ls@.len() ==> !opens_toplevel_edits(#[trigger] text::rows(ls@)[j]),
        decreases i,
    {
        i -= 1;
        if same_chars(&trimmed_end(&ls[i]), &wanted) && !is_indented(&ls[i]) {
            return Some(i);
        }
    }
    None
}

/// The index of the `mounts:` key of the block that line `c` opens. A deeper
/// `mounts:` key, which belongs to another key of the block, is passed over.
fn find_mounts_key(ls: &Vec<Vec<char>>, c: usize) -> (r: Option<usize>)
    requires
        is_last_edits(text::rows(ls@), c as int),
    ensures
        match r {
            Some(m) => is_mounts_key_of(text::rows(ls@), c as int, m as int),
            None => forall|m: int| !is_mounts_key_of(text::rows(ls@), c as int, m),
        },
{
    let wanted = chars_of("mounts:");
    let total: usize = ls.len();
    let ghost rows = text::rows(ls@);
    let mut outermost: Option<usize> = None;
    let mut i: usize = c + 1;
    proof {
        reveal_strlit("mounts:");
    }
    while i < total
        invariant
            total == ls@.len(),
            rows == text::rows(ls@),
            is_last_edits(rows, c as int),
            wanted@ == "mounts:"@,
            wanted@.len() == 7,
            c < i <= ls@.len(),
            forall|j: int| c < j < i ==> blank(#[trigger] rows[j]) || text::indent(rows[j]) > 0,
            forall|j: int|
                c < j < i && is_mounts_line(#[trigger] rows[j]) ==> !is_child(rows, c as int, j),
            match outermost {
                Some(o) => {
                    &&& c < o < i
                    &&& has_content(rows[o as int])
                    &&& forall|j: int|
                        c < j < i && has_content(#[trigger] rows[j]) ==> text::indent(rows[j])
                            >= text::indent(rows[o as int])
                },
                None => forall|j: int| c < j < i ==> !has_content(#[trigger] rows[j]),
            },
        decreases ls@.len() - i,
    {
        let inner = trimmed(&ls[i]);
        if inner.len() > 0 {
            if !is_indented(&ls[i]) {
                assert(!blank(rows[i as int]) && text::indent(rows[i as int]) == 0);
                assert(forall|m: int| i <= m ==> !is_child(rows, c as int, m));
                return None;
            }
            let outer = match outermost {
                Some(o) => indent_width(&ls[i]) <= indent_width(&ls[o]),
                None => true,
            };
            if outer {
                if same_chars(&inner, &wanted) {
                    return Some(i);
                }
                if inner[0] != '#' {
                    outermost = Some(i);
                }
            }
        }
        i += 1;
    }
    None
}

/// `r` is what comes of inserting the mounts of `ps` into the document `spec`.
pub open spec fn is_insertion(
    spec: Seq<char>,
    ps: Seq<Seq<char>>,
    r: Option<Seq<char>>,
) -> bool {
    match r {
        Some(out) => exists|m: int| #[trigger]
            is_mounts_key(text::lines(spec), m) && out == mounts_inserted(
                text::lines(spec),
                m,
                ps,
            ),
        None => forall|m: int| !is_mounts_key(text::lines(spec), m),
    }
}

/// Inserts bind-mount entries for `paths` after the `mounts:` key of the last
/// top-level `containerEdits` block of a CDI document. The entries are indented
/// relative to the key. `None` where that block has no such key of its own.
pub fn insert_into_toplevel_mounts(spec: &str, paths: &[String]) -> (r: Option<String>)
    ensures
        is_insertion(
            spec@,
            text::texts(paths@),
            match r {
                Some(out) => Some(out@),
                None => None,
            },
        ),
{
    let ls = split_lines(&chars_of(spec));
    let c: usize = match find_last_edits(&ls) {
        Some(c) => c,
        None => {
            return None;
        },
    };
    let m: usize = match find_mounts_key(&ls, c) {
        Some(m) => m,
        None => {
            proof {
                assert forall|m: int| !is_mounts_key(text::lines(spec@), m) by {
                    if is_mounts_key(text::lines(spec@), m) {
                        let d = choose|d: int| is_mounts_key_of(text::lines(spec@), d, m);
                        assert(d == c) by {
                            assert(opens_toplevel_edits(text::lines(spec@)[d]));
                            assert(opens_toplevel_edits(text::lines(spec@)[c as int]));
                        }
                    }
                }
            }
            return None;
        },
    };
    let total: usize = ls.len();
    let mut out = String::new();
    push_lines(&mut out, &ls, 0, m + 1);
    let ghost head = out@;
    let ghost n = text::indent(ls@[m as int]@);
    for i in 0..paths.len()
        invariant
            m < ls@.len(),
            n == text::indent(ls@[m as int]@),
            out@ == head + mount_entries(n, text::texts(paths@).take(i as int)),
    {
        push_mount_entry(&mut out, &ls[m], paths[i].as_str());
        proof {
            let grown = text::texts(paths@).take(i + 1);
            assert(grown.drop_last() == text::texts(paths@).take(i as int));
            assert(grown.last() == paths@[i as int]@);
        }
    }
    assert(text::texts(paths@).take(paths@.len() as int) == text::texts(paths@));
    push_lines(&mut out, &ls, m + 1, total);
    assert(is_mounts_key(text::lines(spec@), m as int));
    Some(out)
}

// ---------------------------------------------------------------------------
// Steps
// ---------------------------------------------------------------------------

/// The toolkit's program.
pub const NVIDIA_CTK: &'static str = "/bin/nvidia-ctk";

/// The CDI document, where container runtimes look for it.
pub const CDI_SPEC: &'static str = "/var/run/cdi/nvidia.yaml";

/// Where the IMEX configuration is.
pub const IMEX_CONFIG_DIR: &'static str = "/etc/nvidia-imex";

/// The step that runs the toolkit with the arguments `args`.
pub open spec fn ctk_step(args: Seq<Seq<char>>) -> action::Step {
    action::Step::Run { bin: NVIDIA_CTK@, args }
}

/// The steps that generate the CDI document and complete it.
pub open spec fn ctk_cdi_steps() -> Seq<action::Step> {
    seq![
        ctk_step(seq!["-d"@, "cdi"@, "generate"@, "--output=/var/run/cdi/nvidia.yaml"@]),
        action::Step::InjectImexMounts,
    ]
}

/// Runs the toolkit with the arguments `args`.
pub fn ctk(args: Vec<String>) -> (r: Action)
    ensures
        r@ == ctk_step(text::texts(args@)),
        !(r is Spawn),
{
    Action::Run { bin: NVIDIA_CTK.to_owned(), args }
}

/// Generates the CDI document, from which container runtimes learn the GPU
/// devices, and adds the mounts of the IMEX configuration to it.
pub fn nvidia_ctk_cdi() -> (r: Vec<Action>)
    ensures
        action::steps(r@) == ctk_cdi_steps(),
        forall|i: int| 0 <= i < r@.len() ==> !(#[trigger] r@[i] is Spawn),
{
    let mut args: Vec<String> = Vec::new();
    args.push("-d".to_owned());
    args.push("cdi".to_owned());
    args.push("generate".to_owned());
    args.push("--output=/var/run/cdi/nvidia.yaml".to_owned());
    assert(text::texts(args@) == seq![
        "-d"@,
        "cdi"@,
        "generate"@,
        "--output=/var/run/cdi/nvidia.yaml"@,
    ]);
    let mut r: Vec<Action> = Vec::new();
    r.push(ctk(args));
    r.push(Action::InjectImexMounts);
    assert(action::steps(r@) == ctk_cdi_steps());
    r
}

/// The files of the IMEX configuration.
pub open spec fn imex_paths() -> Seq<Seq<char>> {
    seq![
        IMEX_CONFIG_DIR@ + "/"@ + "config.cfg"@,
        IMEX_CONFIG_DIR@ + "/"@ + "nodes_config.cfg"@,
    ]
}

/// The files of the IMEX configuration that exist.
pub open spec fn present_paths(exist: Seq<bool>) -> Seq<Seq<char>> {
    let first = if exist[0] {
        seq![imex_paths()[0]]
    } else {
        seq![]
    };
    let second = if exist[1] {
        seq![imex_paths()[1]]
    } else {
        seq![]
    };
    first + second
}

/// The files of the IMEX configuration.
pub fn imex_config_paths() -> (r: Vec<String>)
    ensures
        text::texts(r@) == imex_paths(),
{
    let mut r: Vec<String> = Vec::new();
    let mut path = IMEX_CONFIG_DIR.to_owned();
    path.append("/");
    path.append("config.cfg");
    r.push(path);
    let mut path = IMEX_CONFIG_DIR.to_owned();
    path.append("/");
    path.append("nodes_config.cfg");
    r.push(path);
    assert(text::texts(r@) == imex_paths());
    r
}

/// Where the document at the path `document` is written anew before it replaces the
/// old one: beside it, under an ending that container runtimes do not look for.
pub fn draft_path(document: &str) -> (r: String)
    ensures
        r@ == document@ + ".draft"@,
{
    let mut r = document.to_owned();
    r.append(".draft");
    r
}

/// What happened to the injection of the IMEX mounts.
#[derive(Debug, PartialEq, Eq)]
pub enum ImexEvent {
    /// It is known which files of the configuration exist.
    Probed([bool; 2]),
    /// The document was read, or could not be read, for the mounts of `present`.
    SpecRead { present: Vec<String>, spec: Option<String> },
    /// The draft was written in full, or could not be.
    DraftWritten(bool),
    /// The draft has replaced the document, or could not.
    SpecReplaced(bool),
}

/// What the injection of the IMEX mounts does next.
#[derive(Debug, PartialEq, Eq)]
pub enum ImexAction {
    /// Read the document, for the mounts of these files.
    ReadSpec(Vec<String>),
    /// Write the document anew, as the draft beside it.
    WriteDraft(String),
    /// Replace the document by the draft, in one step.
    ReplaceSpec,
    /// Stop: the document has the mounts.
    Injected,
    /// Stop: there is no configuration, and the document stays as it is.
    NoConfig,
    /// Stop: the document cannot be read.
    Unreadable,
    /// Stop: the document has no place for mounts and stays as it is.
    NoMounts,
    /// Stop: the document cannot be written and stays as it is. A draft is removed.
    Unwritable,
}

/// `action` is what follows `event` in the injection of the IMEX mounts.
pub open spec fn imex_follows(event: ImexEvent, action: ImexAction) -> bool {
    match event {
        ImexEvent::Probed(exist) => if present_paths(exist@).len() == 0 {
            action is NoConfig
        } else {
            action is ReadSpec && text::texts(action->ReadSpec_0@) == present_paths(exist@)
        },
        ImexEvent::SpecRead { present, spec: None } => action is Unreadable,
        ImexEvent::SpecRead { present, spec: Some(spec) } => match action {
            ImexAction::WriteDraft(out) => is_insertion(spec@, text::texts(present@), Some(out@)),
            ImexAction::NoMounts => is_insertion(spec@, text::texts(present@), None),
            _ => false,
        },
        ImexEvent::DraftWritten(true) => action is ReplaceSpec,
        ImexEvent::DraftWritten(false) => action is Unwritable,
        ImexEvent::SpecReplaced(true) => action is Injected,
        ImexEvent::SpecReplaced(false) => action is Unwritable,
    }
}

/// What follows `event` in the injection of the IMEX mounts. The container's
/// `libcuda` reads that configuration, which the toolkit does not mount by itself.
/// The document is replaced only by a draft that was written in full, so it stays
/// as it is wherever the injection fails.
pub fn inject_imex_config_mounts(event: &ImexEvent) -> (r: ImexAction)
    ensures
        imex_follows(*event, r),
{
    match event {
        ImexEvent::Probed(exist) => {
            let all = imex_config_paths();
            assert(text::texts(all@).len() == 2);
            assert(text::texts(all@)[0] == all@[0]@);
            assert(text::texts(all@)[1] == all@[1]@);
            let mut present: Vec<String> = Vec::new();
            if exist[0] {
                present.push(all[0].clone());
            }
            if exist[1] {
                present.push(all[1].clone());
            }
            assert(text::texts(present@) == present_paths(exist@));
            if present.len() == 0 {
                ImexAction::NoConfig
            } else {
                ImexAction::ReadSpec(present)
            }
        },
        ImexEvent::SpecRead { present, spec } => match spec {
            None => ImexAction::Unreadable,
            Some(spec) => match insert_into_toplevel_mounts(spec.as_str(), present.as_slice()) {
                Some(out) => ImexAction::WriteDraft(out),
                None => ImexAction::NoMounts,
            },
        },
        ImexEvent::DraftWritten(written) => if *written {
            ImexAction::ReplaceSpec
        } else {
            ImexAction::Unwritable
        },
        ImexEvent::SpecReplaced(replaced) => if *replaced {
            ImexAction::Injected
        } else {
            ImexAction::Unwritable
        },
    }
}

// ---------------------------------------------------------------------------
// Laws
// ---------------------------------------------------------------------------

/// A document has at most one `mounts:` key to insert at.
pub proof fn law_mounts_key_is_unique(ls: Seq<Seq<char>>, m1: int, m2: int)
    requires
        is_mounts_key(ls, m1),
        is_mounts_key(ls, m2),
    ensures
        m1 == m2,
{
    let c1 = choose|c: int| is_mounts_key_of(ls, c, m1);
    let c2 = choose|c: int| is_mounts_key_of(ls, c, m2);
    assert(c1 == c2) by {
        assert(opens_toplevel_edits(ls[c1]));
        assert(opens_toplevel_edits(ls[c2]));
    }
}

/// Every line of the document is kept, in its order, and the new entries stand
/// directly below the `mounts:` key.
pub proof fn law_insertion_keeps_every_line(spec: Seq<char>, m: int, ps: Seq<Seq<char>>)
    requires
        is_mounts_key(text::lines(spec), m),
        forall|i: int|
            0 <= i < text::lines(spec).len() ==> !(text::lines(spec)[i].len() > 0
                && #[trigger] text::lines(spec)[i].last() == '\r'),
    ensures
        ({
            let ls = text::lines(spec);
            text::lines(mounts_inserted(ls, m, ps)) == ls.subrange(0, m + 1) + text::lines(
                mount_entries(text::indent(ls[m]), ps),
            ) + ls.subrange(m + 1, ls.len() as int)
        }),
{
    let ls = text::lines(spec);
    let head = ls.subrange(0, m + 1);
    let tail = ls.subrange(m + 1, ls.len() as int);
    let new = mount_entries(text::indent(ls[m]), ps);
    text::lemma_lines_have_no_breaks(spec);
    text::law_lines_of_terminated(head);
    text::law_lines_of_terminated(tail);
    text::lemma_terminated_is_complete(head);
    lemma_entries_are_complete(text::indent(ls[m]), ps);
    text::lemma_lines_append(text::terminated(head), new);
    text::lemma_lines_append(text::terminated(head) + new, text::terminated(tail));
}

proof fn lemma_entries_are_complete(n: nat, ps: Seq<Seq<char>>)
    ensures
        text::complete(mount_entries(n, ps)),
{
}

/// The lines of the mount of path `p`.
pub open spec fn mount_lines(n: nat, p: Seq<char>) -> Seq<Seq<char>> {
    seq![
        text::spaces(n + 2) + ("- hostPath: "@ + p),
        text::spaces(n + 4) + ("containerPath: "@ + p),
        text::spaces(n + 4) + "options:"@,
        text::spaces(n + 6) + "- ro"@,
        text::spaces(n + 6) + "- nosuid"@,
        text::spaces(n + 6) + "- nodev"@,
        text::spaces(n + 6) + "- bind"@,
    ]
}

/// A path that is a proper line is mounted by seven lines, in this order.
pub proof fn law_lines_of_a_mount(n: nat, p: Seq<char>)
    requires
        text::proper_line(p),
    ensures
        text::lines(mount_entry(n, p)) == mount_lines(n, p),
{
    reveal_strlit("- hostPath: ");
    reveal_strlit("containerPath: ");
    reveal_strlit("options:");
    reveal_strlit("- ro");
    reveal_strlit("- nosuid");
    reveal_strlit("- nodev");
    reveal_strlit("- bind");
    let ls = mount_lines(n, p);
    assert forall|i: int| 0 <= i < ls.len() implies text::proper_line(#[trigger] ls[i]) by {
        assert forall|j: int| 0 <= j < ls[i].len() implies ls[i][j] != '\n' by {
            if i < 2 {
                assert(forall|k: int| 0 <= k < p.len() ==> p.contains(#[trigger] p[k]));
            }
        }
    }
    assert(text::terminated(ls) == mount_entry(n, p)) by {
        reveal_with_fuel(text::terminated, 8);
        assert(ls.drop_last().drop_last().drop_last().drop_last().drop_last().drop_last().drop_last()
            == Seq::<Seq<char>>::empty());
        assert(text::terminated(ls) == mount_entry(n, p));
    }
    text::law_lines_of_terminated(ls);
}

proof fn lemma_lines_of_entries(n: nat, ps: Seq<Seq<char>>)
    requires
        forall|i: int| 0 <= i < ps.len() ==> text::proper_line(#[trigger] ps[i]),
    ensures
        forall|i: int|
            0 <= i < text::lines(mount_entries(n, ps)).len() ==> !opens_toplevel_edits(
                #[trigger] text::lines(mount_entries(n, ps))[i],
            ),
    decreases ps.len(),
{
    if ps.len() > 0 {
        let init = mount_entries(n, ps.drop_last());
        let p = ps.last();
        lemma_lines_of_entries(n, ps.drop_last());
        lemma_entries_are_complete(n, ps.drop_last());
        text::lemma_lines_append(init, mount_entry(n, p));
        law_lines_of_a_mount(n, p);
        let all = text::lines(mount_entries(n, ps));
        assert forall|i: int| 0 <= i < all.len() implies !opens_toplevel_edits(
            #[trigger] all[i],
        ) by {
            let k = text::lines(init).len();
            if i >= k {
                let l = mount_lines(n, p)[i - k];
                assert(all[i] == l);
                assert(l[0] == ' ');
                text::lemma_indent(l);
            } else {
                assert(all[i] == text::lines(init)[i]);
            }
        }
    }
}

/// An insertion leaves the document fit for the next one, at the same key.
pub proof fn law_insertion_keeps_the_key(spec: Seq<char>, m: int, ps: Seq<Seq<char>>)
    requires
        is_mounts_key(text::lines(spec), m),
        forall|i: int|
            0 <= i < text::lines(spec).len() ==> !(text::lines(spec)[i].len() > 0
                && #[trigger] text::lines(spec)[i].last() == '\r'),
        forall|i: int| 0 <= i < ps.len() ==> text::proper_line(#[trigger] ps[i]),
    ensures
        is_mounts_key(text::lines(mounts_inserted(text::lines(spec), m, ps)), m),
{
    let ls = text::lines(spec);
    let n = text::indent(ls[m]);
    let new = text::lines(mount_entries(n, ps));
    let out = text::lines(mounts_inserted(ls, m, ps));
    let c = choose|c: int| is_mounts_key_of(ls, c, m);
    law_insertion_keeps_every_line(spec, m, ps);
    lemma_lines_of_entries(n, ps);
    assert forall|j: int| c < j < out.len() implies !opens_toplevel_edits(#[trigger] out[j]) by {
        if j <= m {
            assert(out[j] == ls[j]);
        } else if j <= m + new.len() {
            assert(out[j] == new[j - m - 1]);
        } else {
            assert(out[j] == ls[j - new.len()]);
        }
    }
    assert forall|j: int| c <= j <= m implies #[trigger] out[j] == ls[j] by {}
    assert forall|j: int| c < j < m && is_mounts_line(#[trigger] out[j]) implies !is_child(
        out,
        c,
        j,
    ) by {
        assert(!is_child(ls, c, j));
        if is_child(out, c, j) {
            assert forall|k: int| c < k <= j implies blank(#[trigger] ls[k]) || text::indent(ls[k])
                > 0 by {
                assert(out[k] == ls[k]);
            }
            assert forall|k: int| c < k < j && has_content(#[trigger] ls[k]) implies text::indent(
                ls[k],
            ) >= text::indent(ls[j]) by {
                assert(out[k] == ls[k]);
            }
        }
    }
    assert(is_mounts_key_of(out, c, m));
}

/// What the document and the draft hold.
pub struct CdiFiles {
    pub document: Seq<char>,
    pub draft: Seq<char>,
}

/// The event that reports how the attempt at `action` went, where it is a step on
/// the files.
pub open spec fn imex_report(action: ImexAction, succeeded: bool) -> Option<ImexEvent> {
    match action {
        ImexAction::WriteDraft(_) => Some(ImexEvent::DraftWritten(succeeded)),
        ImexAction::ReplaceSpec => Some(ImexEvent::SpecReplaced(succeeded)),
        _ => None,
    }
}

/// What the files hold after an attempt at `action`. A write of the draft that fails
/// leaves `torn` in it; a replacement happens in one step or not at all.
pub open spec fn imex_performed(
    files: CdiFiles,
    action: ImexAction,
    succeeded: bool,
    torn: Seq<char>,
) -> CdiFiles {
    match action {
        ImexAction::WriteDraft(out) => CdiFiles {
            draft: if succeeded {
                out@
            } else {
                torn
            },
            ..files
        },
        ImexAction::ReplaceSpec if succeeded => CdiFiles { document: files.draft, ..files },
        _ => files,
    }
}

/// The document changes as a whole or not at all: whatever of the write and the
/// replacement fails, it stays as it was read, and otherwise it is that document
/// with the mounts inserted. `first` follows the read, `second` how `first` went and
/// `third` how `second` went.
pub proof fn law_document_is_replaced_whole(
    files: CdiFiles,
    present: Vec<String>,
    spec: Option<String>,
    first: ImexAction,
    written: bool,
    torn: Seq<char>,
    second: ImexAction,
    replaced: bool,
    third: ImexAction,
)
    requires
        spec is Some ==> spec->Some_0@ == files.document,
        imex_follows(ImexEvent::SpecRead { present, spec }, first),
        imex_report(first, written) is Some ==> imex_follows(
            imex_report(first, written)->Some_0,
            second,
        ),
        imex_report(first, written) is None ==> second == first,
        imex_report(second, replaced) is Some ==> imex_follows(
            imex_report(second, replaced)->Some_0,
            third,
        ),
        imex_report(second, replaced) is None ==> third == second,
    ensures
        ({
            let drafted = imex_performed(files, first, written, torn);
            let end = imex_performed(drafted, second, replaced, torn);
            let keys = exists|m: int| is_mounts_key(text::lines(files.document), m);
            &&& drafted.document == files.document
            &&& third is Injected <==> spec is Some && keys && written && replaced
            &&& third is Injected ==> is_insertion(
                files.document,
                text::texts(present@),
                Some(end.document),
            )
            &&& !(third is Injected) ==> end.document == files.document
            &&& third is Injected || third is Unreadable || third is NoMounts || third is Unwritable
        }),
{
}

/// Where mounts are inserted, in any document: below the first line `m` that says
/// `mounts:` and belongs directly to the last `containerEdits:` at column 0, line `c`. Up
/// to it every line is blank or indented and none with content is indented less; and any
/// earlier line that says `mounts:` is below a line of the block that is indented less
/// than it is.
pub proof fn law_where_mounts_go(ls: Seq<Seq<char>>, c: int, m: int)
    ensures
        is_mounts_key(ls, m) <==> exists|b: int| is_mounts_key_of(ls, b, m),
        is_mounts_key_of(ls, c, m) <==> {
            &&& 0 <= c < m < ls.len()
            &&& text::trim_end(ls[c]) == "containerEdits:"@
            &&& text::indent(ls[c]) == 0
            &&& forall|j: int|
                c < j < ls.len() ==> text::trim_end(#[trigger] ls[j]) != "containerEdits:"@
                    || text::indent(ls[j]) > 0
            &&& text::trim(ls[m]) == "mounts:"@
            &&& text::indent(ls[m]) > 0
            &&& forall|j: int|
                c < j < m ==> text::trim(#[trigger] ls[j]).len() == 0 || text::indent(ls[j]) > 0
            &&& forall|j: int|
                c < j < m && text::trim(#[trigger] ls[j]).len() > 0 && text::trim(ls[j])[0] != '#'
                    ==> text::indent(ls[j]) >= text::indent(ls[m])
            &&& forall|j: int|
                c < j < m && text::trim(#[trigger] ls[j]) == "mounts:"@ ==> exists|k: int|
                    c < k < j && text::trim(#[trigger] ls[k]).len() > 0 && text::trim(ls[k])[0]
                        != '#' && text::indent(ls[k]) < text::indent(ls[j])
        },
{
    reveal_strlit("mounts:");
    assert("mounts:"@.len() == 7);
    if is_mounts_key_of(ls, c, m) {
        lemma_key_says(ls, c, m);
    } else if {
        &&& is_last_edits(ls, c)
        &&& is_child(ls, c, m)
        &&& is_mounts_line(ls[m])
    } {
        let j = choose|j: int| c < j < m && is_mounts_line(#[trigger] ls[j]) && is_child(ls, c, j);
        assert(text::trim(ls[j]) == "mounts:"@);
        assert forall|k: int| c < k < j && text::trim(#[trigger] ls[k]).len() > 0 && text::trim(
            ls[k],
        )[0] != '#' implies text::indent(ls[k]) >= text::indent(ls[j]) by {
            assert(has_content(ls[k]));
        }
    }
}

proof fn lemma_key_says(ls: Seq<Seq<char>>, c: int, m: int)
    requires
        is_mounts_key_of(ls, c, m),
    ensures
        forall|j: int|
            c < j < m && text::trim(#[trigger] ls[j]) == "mounts:"@ ==> exists|k: int|
                c < k < j && text::trim(#[trigger] ls[k]).len() > 0 && text::trim(ls[k])[0] != '#'
                    && text::indent(ls[k]) < text::indent(ls[j]),
{
    reveal_strlit("mounts:");
    assert("mounts:"@.len() == 7);
    assert forall|j: int| c < j < m && text::trim(#[trigger] ls[j]) == "mounts:"@ implies exists|
        k: int,
    |
        c < k < j && text::trim(#[trigger] ls[k]).len() > 0 && text::trim(ls[k])[0] != '#'
            && text::indent(ls[k]) < text::indent(ls[j]) by {
        assert(!blank(ls[j]));
        assert(is_mounts_line(ls[j]));
        assert(!is_child(ls, c, j));
        let k = choose|k: int|
            c < k < j && has_content(#[trigger] ls[k]) && text::indent(ls[k]) < text::indent(
                ls[j],
            );
        assert(has_content(ls[k]));
    }
}

/// What is inserted for one more path, whatever the paths before it: a read-only bind
/// mount of the path at the same place, two columns deeper than the key.
pub proof fn law_one_more_mount(n: nat, ps: Seq<Seq<char>>, p: Seq<char>)
    ensures
        mount_entries(n, Seq::<Seq<char>>::empty()).len() == 0,
        ({
            let item = Seq::new(n + 2, |i: int| ' ');
            let field = Seq::new(n + 4, |i: int| ' ');
            let opt = Seq::new(n + 6, |i: int| ' ');
            let end = seq!['\n'];
            mount_entries(n, ps.push(p)) == mount_entries(n, ps) + (item + ("- hostPath: "@ + p)
                + end + (field + ("containerPath: "@ + p) + end) + (field + "options:"@ + end) + (
            opt + "- ro"@ + end) + (opt + "- nosuid"@ + end) + (opt + "- nodev"@ + end) + (opt
                + "- bind"@ + end))
        }),
{
    assert(ps.push(p).drop_last() == ps);
}

/// What an insertion gives, for any document and any paths: with no `mounts:` key
/// nothing, and otherwise all its lines up to the key, the mounts, indented by the key,
/// and all the lines behind it. It gives that and nothing else.
pub proof fn law_insertion(
    spec: Seq<char>,
    ps: Seq<Seq<char>>,
    m: int,
    r: Option<Seq<char>>,
)
    requires
        is_insertion(spec, ps, r),
    ensures
        is_mounts_key(text::lines(spec), m) ==> r == Some(
            text::terminated(text::lines(spec).take(m + 1)) + mount_entries(
                text::indent(text::lines(spec)[m]),
                ps,
            ) + text::terminated(text::lines(spec).skip(m + 1)),
        ),
        r is Some ==> exists|k: int| is_mounts_key(text::lines(spec), k),
{
    let ls = text::lines(spec);
    if is_mounts_key(ls, m) {
        let c = choose|c: int| is_mounts_key_of(ls, c, m);
        assert(0 <= m < ls.len());
        let out = r->Some_0;
        let k = choose|k: int| #[trigger]
            is_mounts_key(ls, k) && out == mounts_inserted(ls, k, ps);
        law_mounts_key_is_unique(ls, m, k);
        assert(ls.take(m + 1) == ls.subrange(0, m + 1));
        assert(ls.skip(m + 1) == ls.subrange(m + 1, ls.len() as int));
    }
}

/// Which files are mounted: those of the two that exist, in their order.
pub proof fn law_mounted_files(exist: Seq<bool>)
    requires
        exist.len() == 2,
    ensures
        ({
            let ps = present_paths(exist);
            let a = "/etc/nvidia-imex"@ + "/"@ + "config.cfg"@;
            let b = "/etc/nvidia-imex"@ + "/"@ + "nodes_config.cfg"@;
            &&& exist[0] && exist[1] ==> ps == seq![a, b]
            &&& exist[0] && !exist[1] ==> ps == seq![a]
            &&& !exist[0] && exist[1] ==> ps == seq![b]
            &&& !exist[0] && !exist[1] ==> ps.len() == 0
        }),
{
}

/// The toolkit is run with the arguments that are given, all of them and no other.
pub proof fn law_toolkit_is_run(args: Seq<Seq<char>>)
    ensures
        ctk_step(args) is Run,
        ctk_step(args)->Run_bin == "/bin/nvidia-ctk"@,
        ctk_step(args)->Run_args == args,
{
}

} // verus!
