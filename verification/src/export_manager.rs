//! Export bookkeeping: the registry of exports with their identifiers, QoS
//! and quota settings, per-export statistics, and quota accounting.

use vstd::prelude::*;

verus! {

/// Per-export QoS configuration.
#[derive(Debug, Clone, Copy, PartialEq, Eq, Structural)]
pub struct QosConfig {
    /// Maximum operations per second (0 = unlimited)
    pub max_ops_per_sec: u64,
    /// Maximum bytes per second for reads+writes (0 = unlimited)
    pub max_bytes_per_sec: u64,
}

impl Default for QosConfig {
    fn default() -> (r: Self)
        ensures
            r.max_ops_per_sec == 0,
            r.max_bytes_per_sec == 0,
    {
        QosConfig { max_ops_per_sec: 0, max_bytes_per_sec: 0 }
    }
}

/// Per-export quota configuration.
#[derive(Debug, Clone, Copy, PartialEq, Eq, Structural)]
pub struct QuotaConfig {
    /// Hard limit in bytes (0 = unlimited). Writes exceeding this return NFS4ERR_DQUOT.
    pub hard_limit_bytes: u64,
    /// Soft limit in bytes (0 = unlimited). Advisory: reported to clients but not enforced.
    pub soft_limit_bytes: u64,
}

impl Default for QuotaConfig {
    fn default() -> (r: Self)
        ensures
            r.hard_limit_bytes == 0,
            r.soft_limit_bytes == 0,
    {
        QuotaConfig { hard_limit_bytes: 0, soft_limit_bytes: 0 }
    }
}

/// Per-export statistics.
#[derive(Debug)]
pub struct ExportStats {
    pub reads: u64,
    pub writes: u64,
    pub bytes_read: u64,
    pub bytes_written: u64,
    pub ops: u64,
}

/// A copy of the statistics at one moment.
#[derive(Debug, Clone, Copy, PartialEq, Eq, Structural)]
pub struct ExportStatsSnapshot {
    pub reads: u64,
    pub writes: u64,
    pub bytes_read: u64,
    pub bytes_written: u64,
    pub ops: u64,
}

impl ExportStats {
    /// Statistics with every counter at zero.
    pub fn new() -> (r: Self)
        ensures
            r.reads == 0,
            r.writes == 0,
            r.bytes_read == 0,
            r.bytes_written == 0,
            r.ops == 0,
    {
        ExportStats { reads: 0, writes: 0, bytes_read: 0, bytes_written: 0, ops: 0 }
    }

    /// The current value of every counter.
    /// Counts a READ of `bytes` bytes; the counters wrap around at 2^64.
    pub fn record_read(&mut self, bytes: u64)
        ensures
            final(self).reads == (old(self).reads + 1) % 0x1_0000_0000_0000_0000,
            final(self).bytes_read == (old(self).bytes_read + bytes) % 0x1_0000_0000_0000_0000,
            final(self).writes == old(self).writes,
            final(self).bytes_written == old(self).bytes_written,
            final(self).ops == old(self).ops,
    {
        self.reads = self.reads.wrapping_add(1);
        self.bytes_read = self.bytes_read.wrapping_add(bytes);
    }

    /// Counts a WRITE of `bytes` bytes; the counters wrap around at 2^64.
    pub fn record_write(&mut self, bytes: u64)
        ensures
            final(self).writes == (old(self).writes + 1) % 0x1_0000_0000_0000_0000,
            final(self).bytes_written == (old(self).bytes_written + bytes) % 0x1_0000_0000_0000_0000,
            final(self).reads == old(self).reads,
            final(self).bytes_read == old(self).bytes_read,
            final(self).ops == old(self).ops,
    {
        self.writes = self.writes.wrapping_add(1);
        self.bytes_written = self.bytes_written.wrapping_add(bytes);
    }

    /// Counts one operation of a COMPOUND; the counter wraps around at 2^64.
    pub fn record_op(&mut self)
        ensures
            final(self).ops == (old(self).ops + 1) % 0x1_0000_0000_0000_0000,
            final(self).reads == old(self).reads,
            final(self).bytes_read == old(self).bytes_read,
            final(self).writes == old(self).writes,
            final(self).bytes_written == old(self).bytes_written,
    {
        self.ops = self.ops.wrapping_add(1);
    }

    pub fn snapshot(&self) -> (r: ExportStatsSnapshot)
        ensures
            r.reads == self.reads,
            r.writes == self.writes,
            r.bytes_read == self.bytes_read,
            r.bytes_written == self.bytes_written,
            r.ops == self.ops,
    {
        ExportStatsSnapshot {
            reads: self.reads,
            writes: self.writes,
            bytes_read: self.bytes_read,
            bytes_written: self.bytes_written,
            ops: self.ops,
        }
    }
}

/// Per-export quota manager tracking space usage.
#[derive(Debug)]
pub struct QuotaManager {
    pub config: QuotaConfig,
    pub bytes_used: u64,
}

/// Whether writing `additional` more bytes keeps usage `used` within the hard
/// limit `hard` (0 = unlimited).
pub open spec fn write_allowed(hard: u64, used: u64, additional: u64) -> bool {
    hard == 0 || used + additional <= hard
}

/// What remains under `limit` at usage `used`; 0 where there is no limit
/// (`limit` 0).
pub open spec fn avail_under(limit: u64, used: u64) -> u64 {
    if limit == 0 {
        0
    } else if used >= limit {
        0
    } else {
        (limit - used) as u64
    }
}

impl QuotaManager {
    pub fn new(config: QuotaConfig) -> (r: Self)
        ensures
            r.config == config,
            r.bytes_used == 0,
    {
        QuotaManager { config, bytes_used: 0 }
    }

    /// Check if writing `additional_bytes` would exceed the hard quota.
    /// Returns `true` if the write is allowed.
    pub fn check_write(&self, additional_bytes: u64) -> (r: bool)
        ensures
            r == write_allowed(self.config.hard_limit_bytes, self.bytes_used, additional_bytes),
    {
        if self.config.hard_limit_bytes == 0 {
            return true;  // unlimited
        }
        match self.bytes_used.checked_add(additional_bytes) {
            Some(total) => total <= self.config.hard_limit_bytes,
            None => false,
        }
    }

    /// Record bytes written (call after successful write). The counter wraps
    /// around at 2^64.
    pub fn record_write(&mut self, bytes: u64)
        ensures
            final(self).config == old(self).config,
            final(self).bytes_used == (old(self).bytes_used + bytes) % 0x1_0000_0000_0000_0000,
    {
        self.bytes_used = self.bytes_used.wrapping_add(bytes);
    }

    /// Record bytes freed (call after successful remove/truncate); usage does
    /// not go below zero.
    pub fn record_free(&mut self, bytes: u64)
        ensures
            final(self).config == old(self).config,
            final(self).bytes_used == (if bytes >= old(self).bytes_used { 0 } else { old(self).bytes_used - bytes }),
    {
        let freed = if bytes < self.bytes_used { bytes } else { self.bytes_used };
        self.bytes_used = self.bytes_used - freed;
    }

    /// Get current bytes used.
    pub fn bytes_used(&self) -> (r: u64)
        ensures
            r == self.bytes_used,
    {
        self.bytes_used
    }

    /// Get hard limit remaining (0 if unlimited).
    pub fn quota_avail_hard(&self) -> (r: u64)
        ensures
            r == avail_under(self.config.hard_limit_bytes, self.bytes_used),
    {
        if self.config.hard_limit_bytes == 0 {
            return 0;
        }
        self.config.hard_limit_bytes.saturating_sub(self.bytes_used)
    }

    /// Get soft limit remaining (0 if unlimited).
    pub fn quota_avail_soft(&self) -> (r: u64)
        ensures
            r == avail_under(self.config.soft_limit_bytes, self.bytes_used),
    {
        if self.config.soft_limit_bytes == 0 {
            return 0;
        }
        self.config.soft_limit_bytes.saturating_sub(self.bytes_used)
    }

    /// Get the current quota configuration.
    pub fn config(&self) -> (r: QuotaConfig)
        ensures
            r == self.config,
    {
        self.config
    }

    /// Update the quota configuration; usage is kept.
    pub fn update_config(&mut self, config: QuotaConfig)
        ensures
            final(self).config == config,
            final(self).bytes_used == old(self).bytes_used,
    {
        self.config = config;
    }
}

/// Compares two strings.
pub fn str_eq(a: &str, b: &str) -> (r: bool)
    ensures
        r == (a@ == b@),
{
    broadcast use vstd::string::group_string_axioms;
    let x = a.to_string();
    let y = b.to_string();
    x == y
}

/// The identity of one export: its id (the second byte of its filehandles),
/// name, canonical path and whether it is read-only.
#[derive(Debug)]
pub struct ExportInfo {
    pub export_id: u8,
    pub name: String,
    pub path: String,
    pub read_only: bool,
}

/// The mathematical value of an [`ExportInfo`].
pub struct ExportInfoView {
    pub export_id: u8,
    pub name: Seq<char>,
    pub path: Seq<char>,
    pub read_only: bool,
}

impl View for ExportInfo {
    type V = ExportInfoView;

    open spec fn view(&self) -> ExportInfoView {
        ExportInfoView { export_id: self.export_id, name: self.name@, path: self.path@, read_only: self.read_only }
    }
}

impl Clone for ExportInfo {
    fn clone(&self) -> (r: Self)
        ensures
            r@ == self@,
    {
        ExportInfo {
            export_id: self.export_id,
            name: self.name.clone(),
            path: self.path.clone(),
            read_only: self.read_only,
        }
    }
}

/// An export in the registry with its QoS and quota settings.
#[derive(Debug)]
pub struct ExportEntry {
    pub info: ExportInfo,
    pub qos: QosConfig,
    pub quota: QuotaConfig,
}

/// The mathematical value of an [`ExportEntry`].
pub struct ExportEntryView {
    pub info: ExportInfoView,
    pub qos: QosConfig,
    pub quota: QuotaConfig,
}

impl View for ExportEntry {
    type V = ExportEntryView;

    open spec fn view(&self) -> ExportEntryView {
        ExportEntryView { info: self.info@, qos: self.qos, quota: self.quota }
    }
}

/// Why the registry refused a request.
#[derive(Debug, Clone, PartialEq, Eq)]
pub enum ExportError {
    /// An export of that name exists already.
    AlreadyExists(String),
    /// Every export id has been handed out.
    MaxExportsReached,
    /// An overlay export was given no lower layer.
    NoLowerLayer,
    /// No export has that name.
    NotFound(String),
}

/// The first export id that is never handed out (0xFE; 0xFF names the pseudo-root).
pub const EXPORT_ID_LIMIT: u8 = 0xFE;

/// The views of the registry's entries.
pub open spec fn exports_view(v: Seq<ExportEntry>) -> Seq<ExportEntryView> {
    v.map_values(|e: ExportEntry| e@)
}

/// The invariant of the registry: names and ids are unique, every id lies in
/// `[1, next)`, and `next` is at most 0xFE.
pub open spec fn exports_wf(v: Seq<ExportEntryView>, next: u8) -> bool {
    &&& 1 <= next <= EXPORT_ID_LIMIT
    &&& forall|i: int| 0 <= i < v.len() ==> 1 <= #[trigger] v[i].info.export_id < next
    &&& forall|i: int, j: int|
        #![trigger v[i], v[j]]
        0 <= i < v.len() && 0 <= j < v.len() && i != j
            ==> v[i].info.name != v[j].info.name && v[i].info.export_id != v[j].info.export_id
}

/// The index of the export named `name` in `v`, if there is one.
pub open spec fn has_name(v: Seq<ExportEntryView>, name: Seq<char>) -> bool {
    exists|i: int| 0 <= i < v.len() && v[i].info.name == name
}

/// The registry of exports.
pub struct ExportManager {
    pub exports: Vec<ExportEntry>,
    pub next_export_id: u8,
}

impl ExportManager {
    /// The views of the exports, in the order they were added.
    pub open spec fn entries(&self) -> Seq<ExportEntryView> {
        exports_view(self.exports@)
    }

    /// The invariant of the registry.
    pub open spec fn wf(&self) -> bool {
        exports_wf(self.entries(), self.next_export_id)
    }

    /// An empty registry; the first export gets id 1 (0x00 is reserved).
    pub fn new() -> (r: Self)
        ensures
            r.wf(),
            r.entries() == Seq::<ExportEntryView>::empty(),
            r.next_export_id == 1,
    {
        ExportManager { exports: Vec::new(), next_export_id: 1 }
    }

    /// The index of the export named `name`.
    fn find_name(&self, name: &str) -> (r: Option<usize>)
        ensures
            match r {
                Some(i) => i < self.exports.len() && self.entries()[i as int].info.name == name@,
                None => !has_name(self.entries(), name@),
            },
    {
        let mut i: usize = 0;
        while i < self.exports.len()
            invariant
                i <= self.exports.len(),
                forall|j: int| 0 <= j < i ==> self.entries()[j].info.name != name@,
            decreases self.exports.len() - i,
        {
            assert(self.entries()[i as int] == self.exports@[i as int]@);
            if str_eq(self.exports[i].info.name.as_str(), name) {
                return Some(i);
            }
            i = i + 1;
        }
        None
    }

    /// The checks made before an export's path is looked at: the name must be
    /// free and an export id must be left.
    pub fn check_new_export(&self, name: &str) -> (r: Result<(), ExportError>)
        ensures
            match r {
                Ok(_) => !has_name(self.entries(), name@) && self.next_export_id < EXPORT_ID_LIMIT,
                Err(ExportError::AlreadyExists(n)) => has_name(self.entries(), name@) && n@ == name@,
                Err(ExportError::MaxExportsReached) => !has_name(self.entries(), name@)
                    && self.next_export_id >= EXPORT_ID_LIMIT,
                Err(_) => false,
            },
    {
        if self.find_name(name).is_some() {
            return Err(ExportError::AlreadyExists(name.to_string()));
        }
        if self.next_export_id >= EXPORT_ID_LIMIT {
            return Err(ExportError::MaxExportsReached);
        }
        Ok(())
    }

    /// The checks made before an overlay export's layers are looked at: those
    /// of [`Self::check_new_export`], then at least one lower layer.
    pub fn check_new_overlay_export(&self, name: &str, lower_layers: usize) -> (r: Result<(), ExportError>)
        ensures
            match r {
                Ok(_) => !has_name(self.entries(), name@) && self.next_export_id < EXPORT_ID_LIMIT
                    && lower_layers > 0,
                Err(ExportError::AlreadyExists(n)) => has_name(self.entries(), name@) && n@ == name@,
                Err(ExportError::MaxExportsReached) => !has_name(self.entries(), name@)
                    && self.next_export_id >= EXPORT_ID_LIMIT,
                Err(ExportError::NoLowerLayer) => !has_name(self.entries(), name@)
                    && self.next_export_id < EXPORT_ID_LIMIT && lower_layers == 0,
                Err(_) => false,
            },
    {
        self.check_new_export(name)?;
        if lower_layers == 0 {
            return Err(ExportError::NoLowerLayer);
        }
        Ok(())
    }

    /// Registers an export of canonical directory `path` under the next id,
    /// with default QoS and quota settings.
    pub fn add_export(&mut self, name: String, path: String, read_only: bool) -> (r: Result<ExportInfo, ExportError>)
        requires
            old(self).wf(),
        ensures
            final(self).wf(),
            match r {
                Ok(info) => {
                    &&& !has_name(old(self).entries(), name@)
                    &&& old(self).next_export_id < EXPORT_ID_LIMIT
                    &&& info@ == (ExportInfoView { export_id: old(self).next_export_id, name: name@, path: path@, read_only })
                    &&& final(self).next_export_id == old(self).next_export_id + 1
                    &&& final(self).entries() == old(self).entries().push(ExportEntryView {
                        info: info@,
                        qos: QosConfig { max_ops_per_sec: 0, max_bytes_per_sec: 0 },
                        quota: QuotaConfig { hard_limit_bytes: 0, soft_limit_bytes: 0 },
                    })
                },
                Err(ExportError::AlreadyExists(n)) => has_name(old(self).entries(), name@) && n@ == name@
                    && *final(self) == *old(self),
                Err(ExportError::MaxExportsReached) => !has_name(old(self).entries(), name@)
                    && old(self).next_export_id >= EXPORT_ID_LIMIT && *final(self) == *old(self),
                Err(_) => false,
            },
    {
        if let Err(e) = self.check_new_export(name.as_str()) {
            return Err(e);
        }
        let export_id = self.next_export_id;
        self.next_export_id = export_id + 1;
        let info = ExportInfo { export_id, name, path, read_only };
        let ret = info.clone();
        let ghost old_entries = self.entries();
        let entry = ExportEntry { info, qos: QosConfig::default(), quota: QuotaConfig::default() };
        self.exports.push(entry);
        proof {
            let nv = self.entries();
            assert(nv =~= old_entries.push(nv.last()));
            assert forall|i: int, j: int|
                #![trigger nv[i], nv[j]]
                0 <= i < nv.len() && 0 <= j < nv.len() && i != j
                    implies nv[i].info.name != nv[j].info.name && nv[i].info.export_id != nv[j].info.export_id by {
                let n = old_entries.len() as int;
                if i == n {
                    assert(nv[j] == old_entries[j]);
                } else if j == n {
                    assert(nv[i] == old_entries[i]);
                } else {
                    assert(nv[i] == old_entries[i] && nv[j] == old_entries[j]);
                }
            }
        }
        Ok(ret)
    }

    /// Registers an overlay export whose canonical upper directory is `upper`
    /// over `lower` (canonical directories); overlay exports are writable.
    pub fn add_overlay_export(&mut self, name: String, upper: String, lower: Vec<String>) -> (r: Result<ExportInfo, ExportError>)
        requires
            old(self).wf(),
        ensures
            final(self).wf(),
            match r {
                Ok(info) => {
                    &&& !has_name(old(self).entries(), name@)
                    &&& old(self).next_export_id < EXPORT_ID_LIMIT
                    &&& lower.len() > 0
                    &&& info@ == (ExportInfoView { export_id: old(self).next_export_id, name: name@, path: upper@, read_only: false })
                    &&& final(self).next_export_id == old(self).next_export_id + 1
                    &&& final(self).entries() == old(self).entries().push(ExportEntryView {
                        info: info@,
                        qos: QosConfig { max_ops_per_sec: 0, max_bytes_per_sec: 0 },
                        quota: QuotaConfig { hard_limit_bytes: 0, soft_limit_bytes: 0 },
                    })
                },
                Err(ExportError::AlreadyExists(n)) => has_name(old(self).entries(), name@) && n@ == name@
                    && *final(self) == *old(self),
                Err(ExportError::MaxExportsReached) => !has_name(old(self).entries(), name@)
                    && old(self).next_export_id >= EXPORT_ID_LIMIT && *final(self) == *old(self),
                Err(ExportError::NoLowerLayer) => !has_name(old(self).entries(), name@)
                    && old(self).next_export_id < EXPORT_ID_LIMIT && lower.len() == 0
                    && *final(self) == *old(self),
                Err(_) => false,
            },
    {
        if let Err(e) = self.check_new_overlay_export(name.as_str(), lower.len()) {
            return Err(e);
        }
        self.add_export(name, upper, false)
    }

    /// Removes the export named `name`.
    pub fn remove_export(&mut self, name: &str) -> (r: Result<(), ExportError>)
        requires
            old(self).wf(),
        ensures
            final(self).wf(),
            final(self).next_export_id == old(self).next_export_id,
            match r {
                Ok(_) => exists|i: int| 0 <= i < old(self).entries().len()
                    && old(self).entries()[i].info.name == name@
                    && final(self).entries() == old(self).entries().remove(i),
                Err(ExportError::NotFound(n)) => !has_name(old(self).entries(), name@) && n@ == name@
                    && *final(self) == *old(self),
                Err(_) => false,
            },
    {
        match self.find_name(name) {
            Some(i) => {
                let ghost ov = self.entries();
                self.exports.remove(i);
                proof {
                    let nv = self.entries();
                    assert(nv =~= ov.remove(i as int));
                    assert forall|a: int| 0 <= a < nv.len() implies #[trigger] nv[a] == ov[if a < i { a } else { a + 1 }] by {}
                    assert forall|a: int, b: int|
                        #![trigger nv[a], nv[b]]
                        0 <= a < nv.len() && 0 <= b < nv.len() && a != b
                            implies nv[a].info.name != nv[b].info.name && nv[a].info.export_id != nv[b].info.export_id by {
                        let oa = if a < i { a } else { a + 1 };
                        let ob = if b < i { b } else { b + 1 };
                        assert(nv[a] == ov[oa] && nv[b] == ov[ob]);
                    }
                }
                Ok(())
            },
            None => Err(ExportError::NotFound(name.to_string())),
        }
    }

    /// Every export, in the order they were added.
    pub fn list_exports(&self) -> (r: Vec<ExportInfo>)
        ensures
            r@.len() == self.entries().len(),
            forall|i: int| 0 <= i < r@.len() ==> #[trigger] r@[i]@ == self.entries()[i].info,
    {
        let mut r: Vec<ExportInfo> = Vec::new();
        let mut i: usize = 0;
        while i < self.exports.len()
            invariant
                i <= self.exports.len(),
                r@.len() == i,
                forall|j: int| 0 <= j < i ==> #[trigger] r@[j]@ == self.entries()[j].info,
            decreases self.exports.len() - i,
        {
            assert(self.entries()[i as int] == self.exports@[i as int]@);
            r.push(self.exports[i].info.clone());
            i = i + 1;
        }
        r
    }

    /// The export with id `export_id`, if there is one.
    pub fn get_export_by_id(&self, export_id: u8) -> (r: Option<ExportInfo>)
        ensures
            match r {
                Some(info) => exists|i: int| 0 <= i < self.entries().len()
                    && self.entries()[i].info.export_id == export_id && info@ == self.entries()[i].info,
                None => forall|i: int| 0 <= i < self.entries().len() ==> self.entries()[i].info.export_id != export_id,
            },
    {
        let mut i: usize = 0;
        while i < self.exports.len()
            invariant
                i <= self.exports.len(),
                forall|j: int| 0 <= j < i ==> self.entries()[j].info.export_id != export_id,
            decreases self.exports.len() - i,
        {
            assert(self.entries()[i as int] == self.exports@[i as int]@);
            if self.exports[i].info.export_id == export_id {
                return Some(self.exports[i].info.clone());
            }
            i = i + 1;
        }
        None
    }

    /// The export named `name`, if there is one.
    pub fn get_export_by_name(&self, name: &str) -> (r: Option<ExportInfo>)
        ensures
            match r {
                Some(info) => exists|i: int| 0 <= i < self.entries().len()
                    && self.entries()[i].info.name == name@ && info@ == self.entries()[i].info,
                None => !has_name(self.entries(), name@),
            },
    {
        match self.find_name(name) {
            Some(i) => Some(self.exports[i].info.clone()),
            None => None,
        }
    }

    /// Sets the QoS configuration of the export named `name`.
    pub fn set_qos(&mut self, name: &str, config: QosConfig) -> (r: Result<(), ExportError>)
        requires
            old(self).wf(),
        ensures
            final(self).wf(),
            final(self).next_export_id == old(self).next_export_id,
            match r {
                Ok(_) => exists|i: int| 0 <= i < old(self).entries().len()
                    && old(self).entries()[i].info.name == name@
                    && final(self).entries() == old(self).entries().update(i, ExportEntryView { qos: config, ..old(self).entries()[i] }),
                Err(ExportError::NotFound(n)) => !has_name(old(self).entries(), name@) && n@ == name@
                    && *final(self) == *old(self),
                Err(_) => false,
            },
    {
        match self.find_name(name) {
            Some(i) => {
                let ghost ov = self.entries();
                self.exports[i].qos = config;
                proof {
                    assert(self.entries() =~= ov.update(i as int, ExportEntryView { qos: config, ..ov[i as int] }));
                }
                Ok(())
            },
            None => Err(ExportError::NotFound(name.to_string())),
        }
    }

    /// The QoS configuration of the export named `name`.
    pub fn get_qos(&self, name: &str) -> (r: Option<QosConfig>)
        ensures
            match r {
                Some(c) => exists|i: int| 0 <= i < self.entries().len()
                    && self.entries()[i].info.name == name@ && c == self.entries()[i].qos,
                None => !has_name(self.entries(), name@),
            },
    {
        match self.find_name(name) {
            Some(i) => Some(self.exports[i].qos),
            None => None,
        }
    }

    /// Sets the quota configuration of the export named `name`.
    pub fn set_quota(&mut self, name: &str, config: QuotaConfig) -> (r: Result<(), ExportError>)
        requires
            old(self).wf(),
        ensures
            final(self).wf(),
            final(self).next_export_id == old(self).next_export_id,
            match r {
                Ok(_) => exists|i: int| 0 <= i < old(self).entries().len()
                    && old(self).entries()[i].info.name == name@
                    && final(self).entries() == old(self).entries().update(i, ExportEntryView { quota: config, ..old(self).entries()[i] }),
                Err(ExportError::NotFound(n)) => !has_name(old(self).entries(), name@) && n@ == name@
                    && *final(self) == *old(self),
                Err(_) => false,
            },
    {
        match self.find_name(name) {
            Some(i) => {
                let ghost ov = self.entries();
                self.exports[i].quota = config;
                proof {
                    assert(self.entries() =~= ov.update(i as int, ExportEntryView { quota: config, ..ov[i as int] }));
                }
                Ok(())
            },
            None => Err(ExportError::NotFound(name.to_string())),
        }
    }

    /// The quota configuration of the export named `name`.
    pub fn get_quota(&self, name: &str) -> (r: Option<QuotaConfig>)
        ensures
            match r {
                Some(c) => exists|i: int| 0 <= i < self.entries().len()
                    && self.entries()[i].info.name == name@ && c == self.entries()[i].quota,
                None => !has_name(self.entries(), name@),
            },
    {
        match self.find_name(name) {
            Some(i) => Some(self.exports[i].quota),
            None => None,
        }
    }
}

} // verus!
