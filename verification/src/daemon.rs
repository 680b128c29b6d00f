//! The NVIDIA daemons: how each is configured and started.

use crate::action;
use crate::action::Action;
use crate::config;
use crate::kmsg;
use crate::nvrc::NVRC;
use crate::text;
use crate::text::push_decimal;
use vstd::prelude::*;

verus! {

/// `FABRIC_MODE=0`: full GPU passthrough, the fabric manager drives the NVSwitches.
pub const FABRIC_MODE_FULL: u8 = 0;

/// `FABRIC_MODE=1`: shared NVSwitch virtualization, the GPUs are in tenant VMs.
pub const FABRIC_MODE_SHARED: u8 = 1;

/// The fabric manager's configuration as shipped.
pub const FM_CONFIG: &'static str = "/usr/share/nvidia/nvswitch/fabricmanager.cfg";

/// The fabric manager's configuration as it is run with.
pub const FM_RUNTIME_CONFIG: &'static str = "/run/fabricmanager.cfg";

/// The configuration of the NVLink subnet manager.
pub const NVLSM_CONFIG: &'static str = "/usr/share/nvidia/nvlsm/nvlsm.conf";

/// The driver logs this once for each GPU that joins the trained fabric.
pub const FABRIC_MARKER: &'static str = "NVRM: knvlinkSetUniqueFabricBaseAddress_GV100";

/// The persistence daemon logs this when it is ready.
pub const PERSISTENCED_MARKER: &'static str = "nvidia-persistenced: Started (";

// ---------------------------------------------------------------------------
// Arguments
// ---------------------------------------------------------------------------

/// The texts that a sequence of string slices holds.
pub open spec fn words(v: Seq<&'static str>) -> Seq<Seq<char>> {
    Seq::new(v.len(), |i: int| v[i]@)
}

/// The arguments of `nvidia-persistenced`.
pub open spec fn persistenced_words(uvm_enabled: bool) -> Seq<Seq<char>> {
    if uvm_enabled {
        seq!["--verbose"@, "--uvm-persistence-mode"@]
    } else {
        seq!["--verbose"@]
    }
}

/// The arguments of `nv-hostengine`.
pub open spec fn hostengine_words() -> Seq<Seq<char>> {
    seq!["--service-account"@, "nvidia-dcgm"@, "--home-dir"@, "/tmp"@]
}

/// The arguments of `dcgm-exporter`.
pub open spec fn dcgm_exporter_words() -> Seq<Seq<char>> {
    seq!["-k"@, "-f"@, "/etc/dcgm-exporter/default-counters.csv"@]
}

/// UVM persistence mode keeps unified-memory mappings alive between kernel
/// launches, which saves expensive page migrations.
pub fn persistenced_args(uvm_enabled: bool) -> (r: Vec<&'static str>)
    ensures
        words(r@) == persistenced_words(uvm_enabled),
{
    let r = if uvm_enabled {
        vec!["--verbose", "--uvm-persistence-mode"]
    } else {
        vec!["--verbose"]
    };
    assert(words(r@) == persistenced_words(uvm_enabled));
    r
}

/// The host engine runs under a service account, with `/tmp` for its home since
/// the root file system is read-only after init.
pub fn hostengine_args() -> (r: Vec<&'static str>)
    ensures
        words(r@) == hostengine_words(),
{
    let r = vec!["--service-account", "nvidia-dcgm", "--home-dir", "/tmp"];
    assert(words(r@) == hostengine_words());
    r
}

/// Kubernetes mode, with the counters that the container image ships.
pub fn dcgm_exporter_args() -> (r: Vec<&'static str>)
    ensures
        words(r@) == dcgm_exporter_words(),
{
    let r = vec!["-k", "-f", "/etc/dcgm-exporter/default-counters.csv"];
    assert(words(r@) == dcgm_exporter_words());
    r
}

/// Owned copies of `v`.
fn owned(v: &Vec<&'static str>) -> (r: Vec<String>)
    ensures
        text::texts(r@) == words(v@),
{
    let mut r: Vec<String> = Vec::new();
    for i in 0..v.len()
        invariant
            r@.len() == i,
            forall|j: int| 0 <= j < i ==> (#[trigger] r@[j])@ == v@[j]@,
    {
        r.push(v[i].to_owned());
    }
    assert(text::texts(r@) == words(v@));
    r
}

// ---------------------------------------------------------------------------
// Steps
// ---------------------------------------------------------------------------

/// The steps that start the persistence daemon. UVM persistence is on unless it
/// was switched off.
pub open spec fn persistenced_steps(
    uvm: Option<bool>,
    run_dir: Seq<char>,
    bin: Seq<char>,
) -> Seq<action::Step> {
    seq![
        action::Step::CreateDirAll(run_dir),
        action::Step::Spawn {
            name: "nvidia-persistenced"@,
            bin,
            args: persistenced_words(uvm != Some(false)),
        },
    ]
}

/// The steps that start the persistence daemon and wait until it is ready.
pub open spec fn persistenced_ready_steps(uvm: Option<bool>) -> Seq<action::Step> {
    seq![action::Step::OpenLog(kmsg::KMSG@)] + persistenced_steps(
        uvm,
        "/var/run/nvidia-persistenced"@,
        "/bin/nvidia-persistenced"@,
    ) + seq![
        action::Step::WaitForMarker { marker: PERSISTENCED_MARKER@, timeout_secs: 120 },
    ]
}

/// The step that starts the DCGM host engine, where DCGM was switched on.
pub open spec fn hostengine_steps(dcgm: Option<bool>, bin: Seq<char>) -> Seq<action::Step> {
    if dcgm == Some(true) {
        seq![action::Step::Spawn { name: "nv-hostengine"@, bin, args: hostengine_words() }]
    } else {
        seq![]
    }
}

/// The step that starts the DCGM exporter, where DCGM was switched on.
pub open spec fn dcgm_exporter_steps(dcgm: Option<bool>, bin: Seq<char>) -> Seq<action::Step> {
    if dcgm == Some(true) {
        seq![action::Step::Spawn { name: "dcgm-exporter"@, bin, args: dcgm_exporter_words() }]
    } else {
        seq![]
    }
}

/// The arguments of `nv-fabricmanager`.
pub open spec fn fabricmanager_words(guid: Option<Seq<char>>) -> Seq<Seq<char>> {
    match guid {
        Some(guid) => seq!["-c"@, FM_RUNTIME_CONFIG@, "-g"@, guid],
        None => seq!["-c"@, FM_RUNTIME_CONFIG@],
    }
}

/// The step that starts the fabric manager.
pub open spec fn fabricmanager_spawn(guid: Option<Seq<char>>, bin: Seq<char>) -> action::Step {
    action::Step::Spawn { name: "nv-fabricmanager"@, bin, args: fabricmanager_words(guid) }
}

/// What the fabric manager's configuration is made to say. The rail policy applies
/// to a shared fabric only.
pub open spec fn fabricmanager_settings(fabric_mode: u8, rail_policy: Seq<char>) -> Seq<
    (Seq<char>, Seq<char>),
> {
    let always = seq![
        ("FABRIC_MODE"@, text::decimal(fabric_mode as nat)),
        ("LOG_FILE_NAME"@, "/dev/stderr"@),
        ("LOG_LEVEL"@, "5"@),
        ("LOG_USE_SYSLOG"@, "0"@),
        ("DAEMONIZE"@, "0"@),
    ];
    if fabric_mode != FABRIC_MODE_FULL {
        always.push(("PARTITION_RAIL_POLICY"@, rail_policy))
    } else {
        always
    }
}

/// The steps that configure and start the fabric manager and wait until every GPU
/// has joined the fabric.
pub open spec fn fabricmanager_steps(
    guid: Option<Seq<char>>,
    fabric_mode: u8,
    rail_policy: Seq<char>,
    gpu_count: usize,
) -> Seq<action::Step> {
    seq![
        action::Step::CopyFile { from: FM_CONFIG@, to: FM_RUNTIME_CONFIG@ },
        action::Step::UpdateConfig {
            path: FM_RUNTIME_CONFIG@,
            updates: fabricmanager_settings(fabric_mode, rail_policy),
        },
        action::Step::SetPermissions { path: FM_RUNTIME_CONFIG@, mode: 0o400 },
        fabricmanager_spawn(guid, "/bin/nv-fabricmanager"@),
        action::Step::WaitForKmsgCount {
            marker: FABRIC_MARKER@,
            count: gpu_count,
            timeout_secs: 300,
        },
    ]
}

/// The step that starts the NVLink subnet manager, where its port is known.
pub open spec fn nvlsm_steps(guid: Option<Seq<char>>, bin: Seq<char>) -> Seq<action::Step> {
    match guid {
        Some(guid) => seq![
            action::Step::Spawn {
                name: "nvlsm"@,
                bin,
                args: seq!["-F"@, NVLSM_CONFIG@, "-g"@, guid, "-f"@, "stdout"@],
            },
        ],
        None => seq![],
    }
}

/// The updates of the fabric manager's configuration. Its log goes to standard
/// error at the debug level and not to syslog, and it stays in the foreground.
pub fn fabricmanager_updates(fabric_mode: u8, rail_policy: &str) -> (r: Vec<(String, String)>)
    ensures
        config::pairs(r@) == fabricmanager_settings(fabric_mode, rail_policy@),
{
    let mut mode = String::new();
    push_decimal(&mut mode, fabric_mode as u64);
    assert(mode@ == text::decimal(fabric_mode as nat));
    let mut r: Vec<(String, String)> = Vec::new();
    r.push(("FABRIC_MODE".to_owned(), mode));
    r.push(("LOG_FILE_NAME".to_owned(), "/dev/stderr".to_owned()));
    r.push(("LOG_LEVEL".to_owned(), "5".to_owned()));
    r.push(("LOG_USE_SYSLOG".to_owned(), "0".to_owned()));
    r.push(("DAEMONIZE".to_owned(), "0".to_owned()));
    if fabric_mode != FABRIC_MODE_FULL {
        r.push(("PARTITION_RAIL_POLICY".to_owned(), rail_policy.to_owned()));
    }
    assert(config::pairs(r@) == fabricmanager_settings(fabric_mode, rail_policy@));
    r
}

impl NVRC {
    /// Starts `nvidia-persistenced`, which keeps the GPUs warm between containers,
    /// and waits until it is ready. The log is opened before the daemon starts.
    pub fn nvidia_persistenced(&mut self)
        ensures
            final(self).asked(
                *old(self),
                persistenced_ready_steps(old(self).uvm_persistence_mode),
            ),
            ({
                let n = old(self).pending().len() as int;
                let started = final(self).pending()[n + 2];
                &&& final(self).pending().len() == n + 4
                &&& started is Spawn && started->Spawn_bin == "/bin/nvidia-persistenced"@
                &&& started->Spawn_args.contains("--uvm-persistence-mode"@) <==> old(
                    self,
                ).uvm_persistence_mode != Some(false)
            }),
    {
        let ghost before = *self;
        self.request(Action::OpenLog(kmsg::KMSG.to_owned()));
        let ghost opened = *self;
        self.spawn_persistenced("/var/run/nvidia-persistenced", "/bin/nvidia-persistenced");
        let ghost started = *self;
        self.request(
            Action::WaitForMarker { marker: PERSISTENCED_MARKER.to_owned(), timeout_secs: 120 },
        );
        proof {
            let a = seq![action::Step::OpenLog(kmsg::KMSG@)];
            let b = persistenced_steps(
                before.uvm_persistence_mode,
                "/var/run/nvidia-persistenced"@,
                "/bin/nvidia-persistenced"@,
            );
            let c = seq![
                action::Step::WaitForMarker { marker: PERSISTENCED_MARKER@, timeout_secs: 120 },
            ];
            started.lemma_asked(opened, before, a, b);
            self.lemma_asked(started, before, a + b, c);
            law_persistenced_bring_up(before.uvm_persistence_mode);
        }
    }

    /// Creates the daemon's directory and starts it.
    pub fn spawn_persistenced(&mut self, run_dir: &str, bin: &str)
        ensures
            final(self).asked(
                *old(self),
                persistenced_steps(old(self).uvm_persistence_mode, run_dir@, bin@),
            ),
    {
        let ghost before = *self;
        self.request(Action::CreateDirAll(run_dir.to_owned()));
        let ghost created = *self;
        let uvm_enabled = match self.uvm_persistence_mode {
            Some(enabled) => enabled,
            None => true,
        };
        let args = owned(&persistenced_args(uvm_enabled));
        self.spawn("nvidia-persistenced", bin, args);
        proof {
            let a = seq![action::Step::CreateDirAll(run_dir@)];
            let b = seq![
                action::Step::Spawn {
                    name: "nvidia-persistenced"@,
                    bin: bin@,
                    args: text::texts(args@),
                },
            ];
            self.lemma_asked(created, before, a, b);
            assert(a + b == persistenced_steps(before.uvm_persistence_mode, run_dir@, bin@));
        }
    }

    /// Starts the DCGM backend, only where DCGM was switched on.
    pub fn nv_hostengine(&mut self)
        ensures
            final(self).asked(
                *old(self),
                hostengine_steps(old(self).dcgm_enabled, "/bin/nv-hostengine"@),
            ),
    {
        self.spawn_hostengine("/bin/nv-hostengine")
    }

    /// Starts the DCGM backend `bin`, only where DCGM was switched on.
    pub fn spawn_hostengine(&mut self, bin: &str)
        ensures
            final(self).asked(*old(self), hostengine_steps(old(self).dcgm_enabled, bin@)),
    {
        if !self.is_dcgm_enabled() {
            proof {
                self.lemma_asked_nothing();
            }
            return;
        }
        let args = owned(&hostengine_args());
        self.spawn("nv-hostengine", bin, args);
    }

    /// Starts the exporter of GPU metrics, only where DCGM was switched on.
    pub fn dcgm_exporter(&mut self)
        ensures
            final(self).asked(
                *old(self),
                dcgm_exporter_steps(old(self).dcgm_enabled, "/bin/dcgm-exporter"@),
            ),
    {
        self.spawn_dcgm_exporter("/bin/dcgm-exporter")
    }

    /// Starts the exporter `bin`, only where DCGM was switched on.
    pub fn spawn_dcgm_exporter(&mut self, bin: &str)
        ensures
            final(self).asked(*old(self), dcgm_exporter_steps(old(self).dcgm_enabled, bin@)),
    {
        if !self.is_dcgm_enabled() {
            proof {
                self.lemma_asked_nothing();
            }
            return;
        }
        let args = owned(&dcgm_exporter_args());
        self.spawn("dcgm-exporter", bin, args);
    }

    /// Whether DCGM was switched on. It is off by default.
    fn is_dcgm_enabled(&self) -> (r: bool)
        ensures
            r == (self.dcgm_enabled == Some(true)),
    {
        match self.dcgm_enabled {
            Some(enabled) => enabled,
            None => false,
        }
    }

    /// Configures and starts the NVSwitch fabric manager, and waits until each of
    /// the `gpu_count` GPUs has joined the fabric.
    pub fn nv_fabricmanager(&mut self, fabric_mode: u8, rail_policy: &str, gpu_count: usize)
        ensures
            final(self).asked(
                *old(self),
                fabricmanager_steps(old(self).guid(), fabric_mode, rail_policy@, gpu_count),
            ),
            ({
                let n = old(self).pending().len() as int;
                let told = final(self).pending()[n + 1];
                let started = final(self).pending()[n + 3];
                &&& final(self).pending().len() == n + 5
                &&& told is UpdateConfig
                &&& told->updates.contains(("FABRIC_MODE"@, text::decimal(fabric_mode as nat)))
                &&& fabric_mode != 0 ==> told->updates.contains(
                    ("PARTITION_RAIL_POLICY"@, rail_policy@),
                )
                &&& started is Spawn && started->Spawn_bin == "/bin/nv-fabricmanager"@
                &&& match old(self).port_guid {
                    Some(g) => started->Spawn_args.len() == 4 && started->Spawn_args[2] == "-g"@
                        && started->Spawn_args[3] == g@,
                    None => !started->Spawn_args.contains("-g"@),
                }
            }),
    {
        let ghost before = *self;
        self.request(
            Action::CopyFile { from: FM_CONFIG.to_owned(), to: FM_RUNTIME_CONFIG.to_owned() },
        );
        let ghost copied = *self;
        self.configure_fabricmanager(FM_RUNTIME_CONFIG, fabric_mode, rail_policy);
        let ghost configured = *self;
        self.request(
            Action::SetPermissions { path: FM_RUNTIME_CONFIG.to_owned(), mode: 0o400 },
        );
        let ghost protected = *self;
        self.spawn_fabricmanager("/bin/nv-fabricmanager");
        let ghost started = *self;
        self.request(
            Action::WaitForKmsgCount {
                marker: FABRIC_MARKER.to_owned(),
                count: gpu_count,
                timeout_secs: 300,
            },
        );
        proof {
            let all = fabricmanager_steps(before.guid(), fabric_mode, rail_policy@, gpu_count);
            let a = seq![all[0]];
            let b = seq![all[1]];
            let c = seq![all[2]];
            let d = seq![all[3]];
            configured.lemma_asked(copied, before, a, b);
            protected.lemma_asked(configured, before, a + b, c);
            started.lemma_asked(protected, before, a + b + c, d);
            self.lemma_asked(started, before, a + b + c + d, seq![all[4]]);
            assert(a + b + c + d + seq![all[4]] == all);
            law_fabricmanager_bring_up(before.guid(), fabric_mode, rail_policy@, gpu_count);
        }
    }

    /// Starts the fabric manager `bin`, on the known port where there is one.
    pub fn spawn_fabricmanager(&mut self, bin: &str)
        ensures
            final(self).asked(*old(self), seq![fabricmanager_spawn(old(self).guid(), bin@)]),
    {
        let mut args: Vec<String> = Vec::new();
        args.push("-c".to_owned());
        args.push(FM_RUNTIME_CONFIG.to_owned());
        if let Some(guid) = &self.port_guid {
            args.push("-g".to_owned());
            args.push(guid.clone());
        }
        assert(text::texts(args@) == fabricmanager_words(self.guid()));
        self.spawn("nv-fabricmanager", bin, args);
    }

    /// Starts the NVLink subnet manager, which the fabric manager needs where CX7
    /// bridges manage the fabric.
    pub fn nv_nvlsm(&mut self)
        ensures
            final(self).asked(*old(self), nvlsm_steps(old(self).guid(), "/sbin/nvlsm"@)),
    {
        self.spawn_nvlsm("/sbin/nvlsm")
    }

    /// Starts the NVLink subnet manager `bin`, only where the port is known.
    pub fn spawn_nvlsm(&mut self, bin: &str)
        ensures
            final(self).asked(*old(self), nvlsm_steps(old(self).guid(), bin@)),
    {
        let guid = match &self.port_guid {
            Some(guid) => guid.clone(),
            None => {
                proof {
                    self.lemma_asked_nothing();
                }
                return;
            },
        };
        let mut args: Vec<String> = Vec::new();
        args.push("-F".to_owned());
        args.push(NVLSM_CONFIG.to_owned());
        args.push("-g".to_owned());
        args.push(guid);
        args.push("-f".to_owned());
        args.push("stdout".to_owned());
        assert(text::texts(args@) == seq!["-F"@, NVLSM_CONFIG@, "-g"@, guid@, "-f"@, "stdout"@]);
        self.spawn("nvlsm", bin, args);
    }

    /// Asks for the fabric manager's configuration at `cfg_path` to be updated.
    pub fn configure_fabricmanager(&mut self, cfg_path: &str, fabric_mode: u8, rail_policy: &str)
        ensures
            final(self).asked(
                *old(self),
                seq![
                    action::Step::UpdateConfig {
                        path: cfg_path@,
                        updates: fabricmanager_settings(fabric_mode, rail_policy@),
                    },
                ],
            ),
    {
        let updates = fabricmanager_updates(fabric_mode, rail_policy);
        self.request(Action::UpdateConfig { path: cfg_path.to_owned(), updates });
    }
}

// ---------------------------------------------------------------------------
// Laws
// ---------------------------------------------------------------------------

/// The log is open before the persistence daemon starts and is read after, so that
/// its report cannot be missed.
pub proof fn law_log_is_open_before_persistenced_starts(uvm: Option<bool>)
    ensures
        ({
            let ss = persistenced_ready_steps(uvm);
            &&& ss.len() == 4
            &&& ss[0] is OpenLog
            &&& ss[2] is Spawn
            &&& ss[3] is WaitForMarker
        }),
{
}

/// UVM persistence is on by default, and the DCGM daemons are off.
pub proof fn law_defaults(run_dir: Seq<char>, bin: Seq<char>)
    ensures
        persistenced_steps(None, run_dir, bin) == persistenced_steps(Some(true), run_dir, bin),
        persistenced_words(true).contains("--uvm-persistence-mode"@),
        hostengine_steps(None, bin).len() == 0,
        hostengine_steps(Some(false), bin).len() == 0,
        dcgm_exporter_steps(None, bin).len() == 0,
        dcgm_exporter_steps(Some(false), bin).len() == 0,
{
    assert(persistenced_words(true)[1] == "--uvm-persistence-mode"@);
}

/// The fabric manager's configuration is complete and protected before it starts,
/// and the init then waits for one message per GPU.
pub proof fn law_fabricmanager_order(
    guid: Option<Seq<char>>,
    fabric_mode: u8,
    rail_policy: Seq<char>,
    gpu_count: usize,
)
    ensures
        ({
            let ss = fabricmanager_steps(guid, fabric_mode, rail_policy, gpu_count);
            &&& ss.len() == 5
            &&& ss[0] is CopyFile && ss[0]->to == FM_RUNTIME_CONFIG@
            &&& ss[1] is UpdateConfig && ss[1]->UpdateConfig_path == FM_RUNTIME_CONFIG@
            &&& ss[2] is SetPermissions && ss[2]->SetPermissions_path == FM_RUNTIME_CONFIG@
            &&& ss[3] is Spawn
            &&& ss[4] is WaitForKmsgCount && ss[4]->count == gpu_count
        }),
{
}

proof fn lemma_settings_are_distinct(fabric_mode: u8, rail_policy: Seq<char>)
    ensures
        config::distinct_keys(fabricmanager_settings(fabric_mode, rail_policy)),
{
    reveal_strlit("FABRIC_MODE");
    reveal_strlit("LOG_FILE_NAME");
    reveal_strlit("LOG_LEVEL");
    reveal_strlit("LOG_USE_SYSLOG");
    reveal_strlit("DAEMONIZE");
    reveal_strlit("PARTITION_RAIL_POLICY");
    assert("FABRIC_MODE"@[0] == 'F');
    assert("LOG_FILE_NAME"@[4] == 'F');
    assert("LOG_LEVEL"@[4] == 'L');
    assert("LOG_USE_SYSLOG"@[4] == 'U');
    assert("DAEMONIZE"@[0] == 'D');
    assert("PARTITION_RAIL_POLICY"@[0] == 'P');
}

/// Whatever the configuration said and whatever the mode, after the update it
/// names the mode, logs to standard error at the debug level and not to syslog,
/// and keeps the fabric manager in the foreground. No stale value is left.
pub proof fn law_diagnostic_overrides(ls: Seq<Seq<char>>, fabric_mode: u8, rail_policy: Seq<char>)
    ensures
        ({
            let new = config::with_settings(ls, fabricmanager_settings(fabric_mode, rail_policy));
            &&& config::is_settled(new, "FABRIC_MODE"@, text::decimal(fabric_mode as nat))
            &&& config::is_settled(new, "LOG_FILE_NAME"@, "/dev/stderr"@)
            &&& config::is_settled(new, "LOG_LEVEL"@, "5"@)
            &&& config::is_settled(new, "LOG_USE_SYSLOG"@, "0"@)
            &&& config::is_settled(new, "DAEMONIZE"@, "0"@)
        }),
{
    let ups = fabricmanager_settings(fabric_mode, rail_policy);
    lemma_settings_are_distinct(fabric_mode, rail_policy);
    config::law_updates_are_settled(ls, ups, 0);
    config::law_updates_are_settled(ls, ups, 1);
    config::law_updates_are_settled(ls, ups, 2);
    config::law_updates_are_settled(ls, ups, 3);
    config::law_updates_are_settled(ls, ups, 4);
}

/// In every mode but full passthrough the configuration names the rail policy.
pub proof fn law_shared_fabric_has_rail_policy(
    ls: Seq<Seq<char>>,
    fabric_mode: u8,
    rail_policy: Seq<char>,
)
    requires
        fabric_mode != FABRIC_MODE_FULL,
    ensures
        config::is_settled(
            config::with_settings(ls, fabricmanager_settings(fabric_mode, rail_policy)),
            "PARTITION_RAIL_POLICY"@,
            rail_policy,
        ),
{
    lemma_settings_are_distinct(fabric_mode, rail_policy);
    config::law_updates_are_settled(ls, fabricmanager_settings(fabric_mode, rail_policy), 5);
}

/// In full passthrough no line on the rail policy is written, and one that was
/// there is left as it was.
pub proof fn law_full_passthrough_leaves_rail_policy(ls: Seq<Seq<char>>, rail_policy: Seq<char>)
    ensures
        ({
            let new = config::with_settings(
                ls,
                fabricmanager_settings(FABRIC_MODE_FULL, rail_policy),
            );
            &&& forall|k: int|
                0 <= k < ls.len() && config::assigns(ls[k], "PARTITION_RAIL_POLICY"@)
                    ==> #[trigger] new[k] == ls[k]
            &&& forall|k: int|
                0 <= k < new.len() && config::assigns(#[trigger] new[k], "PARTITION_RAIL_POLICY"@)
                    ==> k < ls.len() && new[k] == ls[k]
        }),
{
    let ups = fabricmanager_settings(FABRIC_MODE_FULL, rail_policy);
    let new = config::with_settings(ls, ups);
    let key = "PARTITION_RAIL_POLICY"@;
    let full = fabricmanager_settings(FABRIC_MODE_SHARED, rail_policy);
    lemma_settings_are_distinct(FABRIC_MODE_SHARED, rail_policy);
    lemma_settings_are_distinct(FABRIC_MODE_FULL, rail_policy);
    config::law_other_lines_are_kept(ls, ups);
    assert(full[5].0 == key);
    assert forall|i: int| 0 <= i < ups.len() implies (#[trigger] ups[i]).0 != key && !ups[i].0.contains(
        '=',
    ) by {
        assert(full[i].0 == ups[i].0);
    }
    assert forall|k: int| 0 <= k < ls.len() && config::assigns(ls[k], key) implies #[trigger] new[k]
        == ls[k] by {
        assert forall|i: int| 0 <= i < ups.len() implies !config::assigns(
            ls[k],
            (#[trigger] ups[i]).0,
        ) by {
            if config::assigns(ls[k], ups[i].0) {
                config::lemma_one_key(ls[k], ups[i].0, key);
            }
        }
        assert(config::is_untouched(ls[k], ups));
    }
    assert forall|k: int| 0 <= k < new.len() && config::assigns(#[trigger] new[k], key) implies k
        < ls.len() && new[k] == ls[k] by {
        if config::is_setting_of(new[k], ups) {
            let i = choose|i: int|
                0 <= i < ups.len() && new[k] == config::setting((#[trigger] ups[i]).0, ups[i].1);
            config::lemma_setting_assigns(ups[i].0, ups[i].1);
            config::lemma_one_key(new[k], ups[i].0, key);
        }
    }
}

proof fn lemma_proper_setting(key: Seq<char>, value: Seq<char>)
    requires
        !key.contains('\n'),
        text::proper_line(value),
    ensures
        text::proper_line(config::setting(key, value)),
{
    let l = config::setting(key, value);
    assert forall|i: int| 0 <= i < l.len() implies l[i] != '\n' by {
        if i < key.len() {
            assert(l[i] == key[i]);
        } else if i > key.len() {
            assert(l[i] == value[i - key.len() - 1]);
        }
    }
}

/// What is read back from the fabric manager's configuration is what was written,
/// where the file had proper lines and the rail policy is one.
pub proof fn law_fabric_configuration_reads_back(
    config: Seq<char>,
    fabric_mode: u8,
    rail_policy: Seq<char>,
)
    requires
        forall|i: int|
            0 <= i < text::lines(config).len() ==> text::proper_line(
                #[trigger] text::lines(config)[i],
            ),
        text::proper_line(rail_policy),
    ensures
        text::lines(
            config::updated(config, fabricmanager_settings(fabric_mode, rail_policy)),
        ) == config::with_settings(
            text::lines(config),
            fabricmanager_settings(fabric_mode, rail_policy),
        ),
{
    reveal_strlit("FABRIC_MODE");
    reveal_strlit("LOG_FILE_NAME");
    reveal_strlit("LOG_LEVEL");
    reveal_strlit("LOG_USE_SYSLOG");
    reveal_strlit("DAEMONIZE");
    reveal_strlit("PARTITION_RAIL_POLICY");
    reveal_strlit("/dev/stderr");
    reveal_strlit("5");
    reveal_strlit("0");
    let ups = fabricmanager_settings(fabric_mode, rail_policy);
    text::lemma_decimal_is_digits(fabric_mode as nat);
    assert forall|i: int| 0 <= i < ups.len() implies text::proper_line(
        config::setting((#[trigger] ups[i]).0, ups[i].1),
    ) by {
        lemma_proper_setting(ups[i].0, ups[i].1);
    }
    config::law_updated_lines(config, ups);
}

/// The wait for the fabric does not feed on its own log lines.
pub proof fn law_fabric_wait_is_not_self_fed(w: kmsg::Wait, event: kmsg::WaitEvent)
    requires
        w.source == kmsg::Source::Kmsg,
        w.marker@ == FABRIC_MARKER@,
    ensures
        match w.message_after(event) {
            Some(message) => !text::has_substring(message, w.marker@),
            None => true,
        },
{
    reveal_strlit("NVRM: knvlinkSetUniqueFabricBaseAddress_GV100");
    assert(w.marker@[0] == 'N');
    kmsg::law_status_lines_are_marker_free(w, event);
}

proof fn lemma_keys_differ()
    ensures
        "FABRIC_MODE"@ != "LOG_FILE_NAME"@,
        "FABRIC_MODE"@ != "LOG_LEVEL"@,
        "FABRIC_MODE"@ != "LOG_USE_SYSLOG"@,
        "FABRIC_MODE"@ != "DAEMONIZE"@,
        "FABRIC_MODE"@ != "PARTITION_RAIL_POLICY"@,
        "PARTITION_RAIL_POLICY"@ != "LOG_FILE_NAME"@,
        "PARTITION_RAIL_POLICY"@ != "LOG_LEVEL"@,
        "PARTITION_RAIL_POLICY"@ != "LOG_USE_SYSLOG"@,
        "PARTITION_RAIL_POLICY"@ != "DAEMONIZE"@,
        "-c"@ != "-g"@,
        "/run/fabricmanager.cfg"@ != "-g"@,
        "--verbose"@ != "--uvm-persistence-mode"@,
{
    reveal_strlit("FABRIC_MODE");
    reveal_strlit("LOG_FILE_NAME");
    reveal_strlit("LOG_LEVEL");
    reveal_strlit("LOG_USE_SYSLOG");
    reveal_strlit("DAEMONIZE");
    reveal_strlit("PARTITION_RAIL_POLICY");
    reveal_strlit("-c");
    reveal_strlit("-g");
    reveal_strlit("/run/fabricmanager.cfg");
    reveal_strlit("--verbose");
    reveal_strlit("--uvm-persistence-mode");
    assert("FABRIC_MODE"@[0] == 'F');
    assert("LOG_FILE_NAME"@[0] == 'L');
    assert("LOG_LEVEL"@[0] == 'L');
    assert("LOG_USE_SYSLOG"@[0] == 'L');
    assert("DAEMONIZE"@[0] == 'D');
    assert("PARTITION_RAIL_POLICY"@[0] == 'P');
    assert("-c"@[1] == 'c');
    assert("-g"@[1] == 'g');
    assert("/run/fabricmanager.cfg"@[0] == '/');
    assert("-g"@[0] == '-');
    assert("--verbose"@[2] == 'v');
    assert("--uvm-persistence-mode"@[2] == 'u');
}

/// The numbers 0 and 1 as text.
pub proof fn lemma_fabric_mode_texts()
    ensures
        text::decimal(0) == "0"@,
        text::decimal(1) == "1"@,
{
    reveal_strlit("0");
    reveal_strlit("1");
    assert(text::decimal(0) == "0"@);
    assert(text::decimal(1) == "1"@);
}

/// What the fabric manager finds in its settings, whatever the mode and the policy:
/// the mode as a number and no other, the four overrides, and the rail policy in every
/// mode but 0, where there is none.
pub proof fn law_fabric_settings(fabric_mode: u8, rail_policy: Seq<char>)
    ensures
        ({
            let ups = fabricmanager_settings(fabric_mode, rail_policy);
            &&& ups.len() == if fabric_mode == 0 {
                5int
            } else {
                6
            }
            &&& ups.contains(("FABRIC_MODE"@, text::decimal(fabric_mode as nat)))
            &&& ups[0].0 == "FABRIC_MODE"@ && ups[1].0 == "LOG_FILE_NAME"@ && ups[2].0
                == "LOG_LEVEL"@ && ups[3].0 == "LOG_USE_SYSLOG"@ && ups[4].0 == "DAEMONIZE"@
            &&& ups.contains(("LOG_FILE_NAME"@, "/dev/stderr"@))
            &&& ups.contains(("LOG_LEVEL"@, "5"@))
            &&& ups.contains(("LOG_USE_SYSLOG"@, "0"@))
            &&& ups.contains(("DAEMONIZE"@, "0"@))
            &&& fabric_mode != 0 ==> ups.contains(("PARTITION_RAIL_POLICY"@, rail_policy))
            &&& forall|i: int|
                0 <= i < ups.len() && (#[trigger] ups[i]).0 == "FABRIC_MODE"@ ==> ups[i].1
                    == text::decimal(fabric_mode as nat)
            &&& forall|i: int|
                0 <= i < ups.len() && (#[trigger] ups[i]).0 == "PARTITION_RAIL_POLICY"@
                    ==> fabric_mode != 0 && ups[i].1 == rail_policy
        }),
{
    lemma_keys_differ();
    let ups = fabricmanager_settings(fabric_mode, rail_policy);
    assert(ups[0] == ("FABRIC_MODE"@, text::decimal(fabric_mode as nat)));
    assert(ups[1] == ("LOG_FILE_NAME"@, "/dev/stderr"@));
    assert(ups[2] == ("LOG_LEVEL"@, "5"@));
    assert(ups[3] == ("LOG_USE_SYSLOG"@, "0"@));
    assert(ups[4] == ("DAEMONIZE"@, "0"@));
    if fabric_mode != 0 {
        assert(ups[5] == ("PARTITION_RAIL_POLICY"@, rail_policy));
    }
}

/// The fabric manager is started with its runtime configuration and, exactly where the
/// port is known, with `-g` directly followed by the GUID of that port.
pub proof fn law_fabricmanager_is_given_the_port(guid: Option<Seq<char>>, bin: Seq<char>)
    ensures
        ({
            let step = fabricmanager_spawn(guid, bin);
            &&& step is Spawn
            &&& step->name == "nv-fabricmanager"@
            &&& step->Spawn_bin == bin
            &&& step->Spawn_args.len() >= 2
            &&& step->Spawn_args[0] == "-c"@ && step->Spawn_args[1] == "/run/fabricmanager.cfg"@
            &&& match guid {
                Some(g) => step->Spawn_args.len() == 4 && step->Spawn_args[2] == "-g"@
                    && step->Spawn_args[3] == g,
                None => step->Spawn_args.len() == 2 && !step->Spawn_args.contains("-g"@),
            }
        }),
{
    lemma_keys_differ();
}

/// Bringing the fabric manager up, whatever the port, mode, policy and number of GPUs:
/// the shipped configuration is copied, told the mode and policy and made read-only for
/// its owner alone; then the daemon is started on the port where one is known, and one
/// kernel message per GPU is waited for, five minutes at most.
pub proof fn law_fabricmanager_bring_up(
    guid: Option<Seq<char>>,
    fabric_mode: u8,
    rail_policy: Seq<char>,
    gpu_count: usize,
)
    ensures
        ({
            let ss = fabricmanager_steps(guid, fabric_mode, rail_policy, gpu_count);
            let cfg = "/run/fabricmanager.cfg"@;
            &&& ss.len() == 5
            &&& ss[0] == (action::Step::CopyFile {
                from: "/usr/share/nvidia/nvswitch/fabricmanager.cfg"@,
                to: cfg,
            })
            &&& ss[1] is UpdateConfig && ss[1]->UpdateConfig_path == cfg
            &&& ss[1]->updates == fabricmanager_settings(fabric_mode, rail_policy)
            &&& ss[1]->updates.contains(("FABRIC_MODE"@, text::decimal(fabric_mode as nat)))
            &&& fabric_mode != 0 ==> ss[1]->updates.contains(
                ("PARTITION_RAIL_POLICY"@, rail_policy),
            )
            &&& forall|i: int|
                0 <= i < ss[1]->updates.len() && (#[trigger] ss[1]->updates[i]).0
                    == "FABRIC_MODE"@ ==> ss[1]->updates[i].1 == text::decimal(fabric_mode as nat)
            &&& forall|i: int|
                0 <= i < ss[1]->updates.len() && (#[trigger] ss[1]->updates[i]).0
                    == "PARTITION_RAIL_POLICY"@ ==> fabric_mode != 0 && ss[1]->updates[i].1
                    == rail_policy
            &&& ss[2] == (action::Step::SetPermissions { path: cfg, mode: 0o400 })
            &&& ss[3] is Spawn && ss[3]->name == "nv-fabricmanager"@ && ss[3]->Spawn_bin
                == "/bin/nv-fabricmanager"@
            &&& match guid {
                Some(g) => ss[3]->Spawn_args == seq!["-c"@, cfg, "-g"@, g],
                None => ss[3]->Spawn_args == seq!["-c"@, cfg] && !ss[3]->Spawn_args.contains("-g"@),
            }
            &&& ss[4] == (action::Step::WaitForKmsgCount {
                marker: "NVRM: knvlinkSetUniqueFabricBaseAddress_GV100"@,
                count: gpu_count,
                timeout_secs: 300,
            })
        }),
{
    law_fabric_settings(fabric_mode, rail_policy);
    law_fabricmanager_is_given_the_port(guid, "/bin/nv-fabricmanager"@);
}

/// The subnet manager is started exactly where the port is known, on that port.
pub proof fn law_subnet_manager_is_given_the_port(guid: Option<Seq<char>>, bin: Seq<char>)
    ensures
        ({
            let ss = nvlsm_steps(guid, bin);
            match guid {
                Some(g) => {
                    &&& ss.len() == 1
                    &&& ss[0] is Spawn && ss[0]->name == "nvlsm"@ && ss[0]->Spawn_bin == bin
                    &&& ss[0]->Spawn_args == seq![
                        "-F"@,
                        "/usr/share/nvidia/nvlsm/nvlsm.conf"@,
                        "-g"@,
                        g,
                        "-f"@,
                        "stdout"@,
                    ]
                },
                None => ss.len() == 0,
            }
        }),
{
}

/// The persistence daemon is told to keep unified-memory mappings exactly if that was
/// not switched off, and always to be verbose, since its messages are waited for.
pub proof fn law_persistence_goes_by_the_setting(
    uvm: Option<bool>,
    run_dir: Seq<char>,
    bin: Seq<char>,
)
    ensures
        ({
            let ss = persistenced_steps(uvm, run_dir, bin);
            &&& ss.len() == 2
            &&& ss[0] == action::Step::CreateDirAll(run_dir)
            &&& ss[1] is Spawn && ss[1]->name == "nvidia-persistenced"@ && ss[1]->Spawn_bin == bin
            &&& ss[1]->Spawn_args.contains("--verbose"@)
            &&& ss[1]->Spawn_args.contains("--uvm-persistence-mode"@) <==> uvm != Some(false)
            &&& ss[1]->Spawn_args.len() == if uvm == Some(false) {
                1int
            } else {
                2
            }
        }),
{
    lemma_keys_differ();
    let args = persistenced_steps(uvm, run_dir, bin)[1]->Spawn_args;
    assert(args[0] == "--verbose"@);
    if uvm != Some(false) {
        assert(args[1] == "--uvm-persistence-mode"@);
    }
}

/// Bringing the persistence daemon up, whatever the setting: the log is opened first,
/// the daemon started as the setting says, and its report that it has started waited
/// for, two minutes at most.
pub proof fn law_persistenced_bring_up(uvm: Option<bool>)
    ensures
        ({
            let ss = persistenced_ready_steps(uvm);
            &&& ss.len() == 4
            &&& ss[0] == action::Step::OpenLog("/dev/kmsg"@)
            &&& ss[1] == action::Step::CreateDirAll("/var/run/nvidia-persistenced"@)
            &&& ss[2] is Spawn && ss[2]->name == "nvidia-persistenced"@ && ss[2]->Spawn_bin
                == "/bin/nvidia-persistenced"@
            &&& ss[2]->Spawn_args.contains("--verbose"@)
            &&& ss[2]->Spawn_args.contains("--uvm-persistence-mode"@) <==> uvm != Some(false)
            &&& ss[2]->Spawn_args.len() == if uvm == Some(false) {
                1int
            } else {
                2
            }
            &&& ss[3] == (action::Step::WaitForMarker {
                marker: "nvidia-persistenced: Started ("@,
                timeout_secs: 120,
            })
        }),
{
    law_persistence_goes_by_the_setting(
        uvm,
        "/var/run/nvidia-persistenced"@,
        "/bin/nvidia-persistenced"@,
    );
}

/// Each DCGM daemon is started, from the program given, exactly where DCGM was switched
/// on.
pub proof fn law_dcgm_goes_by_the_setting(dcgm: Option<bool>, bin: Seq<char>)
    ensures
        ({
            let host = hostengine_steps(dcgm, bin);
            let exporter = dcgm_exporter_steps(dcgm, bin);
            if dcgm == Some(true) {
                &&& host == seq![
                    action::Step::Spawn {
                        name: "nv-hostengine"@,
                        bin,
                        args: seq!["--service-account"@, "nvidia-dcgm"@, "--home-dir"@, "/tmp"@],
                    },
                ]
                &&& exporter == seq![
                    action::Step::Spawn {
                        name: "dcgm-exporter"@,
                        bin,
                        args: seq!["-k"@, "-f"@, "/etc/dcgm-exporter/default-counters.csv"@],
                    },
                ]
            } else {
                host.len() == 0 && exporter.len() == 0
            }
        }),
{
}

} // verus!
