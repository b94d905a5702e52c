//! Devices, nodes and the requests that pair a device with a node: how each
//! command changes their records.
use vstd::prelude::*;
use crate::automation::registry::{Identified, first_record_at, has_record, position_of};
use crate::error::{MosaicError, fails_with};
use crate::text::{cat, cat3, decimal, i64_to_string, normalize_optional, normalized_opt, opt_view, owned, signed_decimal, trim, trim_str, u64_to_string};

verus! {

/// Where a device stands.
#[derive(Debug, Clone, Copy, PartialEq, Eq, Structural)]
pub enum DeviceStatus {
    Pending,
    Approved,
    Rejected,
    Revoked,
}

/// Where a pairing request stands.
#[derive(Debug, Clone, Copy, PartialEq, Eq, Structural)]
pub enum PairingStatus {
    Pending,
    Approved,
    Rejected,
}

/// Whether a node is reachable.
#[derive(Debug, Clone, Copy, PartialEq, Eq, Structural)]
pub enum NodeRuntimeStatus {
    Online,
    Offline,
}

/// A device; times are milliseconds since the epoch.
#[derive(Debug, Clone)]
pub struct DeviceRecord {
    pub id: String,
    pub name: String,
    pub fingerprint: String,
    pub status: DeviceStatus,
    pub token_version: u32,
    pub last_seen_at: i64,
    pub updated_at: i64,
    pub last_error: Option<String>,
}

/// A request to pair a device with a node.
#[derive(Debug, Clone)]
pub struct PairingRequestRecord {
    pub id: String,
    pub device_id: String,
    pub node_id: String,
    pub status: PairingStatus,
    pub reason: Option<String>,
    pub requested_at: i64,
    pub updated_at: i64,
}

/// A node that devices pair with.
#[derive(Debug, Clone)]
pub struct NodeRecord {
    pub id: String,
    pub name: String,
    pub status: NodeRuntimeStatus,
    pub capabilities: Vec<String>,
    pub last_seen_at: i64,
    pub updated_at: i64,
}

impl Identified for DeviceRecord {
    open spec fn id_view(&self) -> Seq<char> {
        self.id@
    }

    fn id_str(&self) -> (s: &str) {
        self.id.as_str()
    }
}

impl Identified for PairingRequestRecord {
    open spec fn id_view(&self) -> Seq<char> {
        self.id@
    }

    fn id_str(&self) -> (s: &str) {
        self.id.as_str()
    }
}

impl Identified for NodeRecord {
    open spec fn id_view(&self) -> Seq<char> {
        self.id@
    }

    fn id_str(&self) -> (s: &str) {
        self.id.as_str()
    }
}

/// The fingerprint given to a new device: `fp-<milliseconds>-<sequence>`.
pub open spec fn fingerprint_text(now: i64, seq: u64) -> Seq<char> {
    "fp-"@ + signed_decimal(now as int) + "-"@ + decimal(seq as nat)
}

/// The fingerprint given to a new device at `now`, with the process's next
/// pairing sequence number.
pub fn device_fingerprint(now: i64, seq: u64) -> (out: String)
    ensures
        out@ == fingerprint_text(now, seq),
{
    let mut out = cat("fp-", i64_to_string(now).as_str());
    out.append("-");
    out.append(u64_to_string(seq).as_str());
    out
}

/// `b` is `a` with the record at `i` replaced and every other kept.
pub open spec fn replaced_at<T>(a: Seq<T>, b: Seq<T>, i: int) -> bool {
    &&& a.len() == b.len()
    &&& 0 <= i < a.len()
    &&& forall|j: int| 0 <= j < a.len() && j != i ==> b[j] == a[j]
}

/// The message for an unknown device.
pub open spec fn device_not_found(id: Seq<char>) -> Seq<char> {
    "device '"@ + id + "' not found"@
}

/// A device approved at `now`: approved, seen and updated now, its error
/// cleared, and renamed to the trimmed `name` when one is given.
pub open spec fn device_approved(a: DeviceRecord, b: DeviceRecord, name: Option<Seq<char>>, now: i64) -> bool {
    &&& b.id@ == a.id@
    &&& b.name@ == (match name {
        Some(n) => trim(n),
        None => a.name@,
    })
    &&& b.fingerprint@ == a.fingerprint@
    &&& b.status == DeviceStatus::Approved
    &&& b.token_version == a.token_version
    &&& b.last_seen_at == now && b.updated_at == now
    &&& b.last_error is None
}

/// A device first seen at `now`, with the given id, name, fingerprint and
/// status, at token version 1.
pub open spec fn new_device(b: DeviceRecord, id: Seq<char>, name: Seq<char>, fingerprint: Seq<char>, status: DeviceStatus, now: i64) -> bool {
    &&& b.id@ == id
    &&& b.name@ == name
    &&& b.fingerprint@ == fingerprint
    &&& b.status == status
    &&& b.token_version == 1
    &&& b.last_seen_at == now && b.updated_at == now
    &&& b.last_error is None
}

/// Approves the first device with the id `device_id`, or adds it approved
/// (named `name`, else its id) when there is none; its position.
pub fn approve_device(
    devices: &mut Vec<DeviceRecord>,
    device_id: &str,
    name: Option<String>,
    now: i64,
    fingerprint: String,
) -> (i: usize)
    ensures
        has_record(old(devices)@, device_id@) ==> first_record_at(old(devices)@, device_id@, i as int)
            && replaced_at(old(devices)@, final(devices)@, i as int) && device_approved(
            old(devices)@[i as int],
            final(devices)@[i as int],
            opt_view(name),
            now,
        ),
        !has_record(old(devices)@, device_id@) ==> i == old(devices)@.len() && final(devices)@.drop_last()
            == old(devices)@ && final(devices)@.len() == old(devices)@.len() + 1 && new_device(
            final(devices)@[i as int],
            device_id@,
            match name {
                Some(n) => n@,
                None => device_id@,
            },
            fingerprint@,
            DeviceStatus::Approved,
            now,
        ),
{
    match position_of(devices, device_id) {
        Some(i) => {
            let mut d = devices.remove(i);
            d.status = DeviceStatus::Approved;
            if let Some(n) = name {
                d.name = trim_str(n.as_str());
            }
            d.updated_at = now;
            d.last_seen_at = now;
            d.last_error = None;
            devices.insert(i, d);
            i
        },
        None => {
            let n = match name {
                Some(n) => n,
                None => owned(device_id),
            };
            devices.push(
                DeviceRecord {
                    id: owned(device_id),
                    name: n,
                    fingerprint,
                    status: DeviceStatus::Approved,
                    token_version: 1,
                    last_seen_at: now,
                    updated_at: now,
                    last_error: None,
                },
            );
            devices.len() - 1
        },
    }
}

/// A device moved to `status` at `now` with `reason` as its last error.
pub open spec fn device_closed(a: DeviceRecord, b: DeviceRecord, status: DeviceStatus, reason: Option<Seq<char>>, now: i64) -> bool {
    &&& b.id@ == a.id@ && b.name@ == a.name@ && b.fingerprint@ == a.fingerprint@
    &&& b.status == status
    &&& b.token_version == a.token_version
    &&& b.last_seen_at == a.last_seen_at
    &&& b.updated_at == now
    &&& opt_view(b.last_error) == reason
}

/// Rejects (or, with `revoke`, revokes) the first device with the id
/// `device_id`, keeping `reason` as its last error; its position.
pub fn close_device(
    devices: &mut Vec<DeviceRecord>,
    device_id: &str,
    reason: Option<String>,
    revoke: bool,
    now: i64,
) -> (out: Result<usize, MosaicError>)
    ensures
        match out {
            Ok(i) => first_record_at(old(devices)@, device_id@, i as int) && replaced_at(
                old(devices)@,
                final(devices)@,
                i as int,
            ) && device_closed(
                old(devices)@[i as int],
                final(devices)@[i as int],
                if revoke {
                    DeviceStatus::Revoked
                } else {
                    DeviceStatus::Rejected
                },
                opt_view(reason),
                now,
            ),
            Err(e) => final(devices)@ == old(devices)@ && !has_record(old(devices)@, device_id@)
                && fails_with(Err::<(), MosaicError>(e), device_not_found(device_id@)),
        },
{
    let i = match position_of(devices, device_id) {
        Some(i) => i,
        None => {
            return Err(MosaicError::Validation(cat3("device '", device_id, "' not found")));
        },
    };
    let mut d = devices.remove(i);
    d.status = if revoke {
        DeviceStatus::Revoked
    } else {
        DeviceStatus::Rejected
    };
    d.last_error = reason;
    d.updated_at = now;
    devices.insert(i, d);
    Ok(i)
}

/// Gives the first approved device with the id `device_id` a new token
/// version (held at the largest value rather than wrapping); its position.
pub fn rotate_device(devices: &mut Vec<DeviceRecord>, device_id: &str, now: i64) -> (out: Result<
    usize,
    MosaicError,
>)
    ensures
        !has_record(old(devices)@, device_id@) ==> fails_with(out, device_not_found(device_id@)),
        out is Err ==> final(devices)@ == old(devices)@,
        match out {
            Ok(i) => first_record_at(old(devices)@, device_id@, i as int) && old(devices)@[i as int].status
                == DeviceStatus::Approved && replaced_at(old(devices)@, final(devices)@, i as int) && ({
                let (a, b) = (old(devices)@[i as int], final(devices)@[i as int]);
                &&& b.id@ == a.id@ && b.name@ == a.name@ && b.fingerprint@ == a.fingerprint@
                &&& b.status == a.status && b.last_error == a.last_error
                &&& b.token_version == (if a.token_version == u32::MAX {
                    u32::MAX
                } else {
                    (a.token_version + 1) as u32
                })
                &&& b.updated_at == now && b.last_seen_at == now
            }),
            Err(e) => !has_record(old(devices)@, device_id@) || (exists|i: int|
                first_record_at(old(devices)@, device_id@, i) && old(devices)@[i].status
                    != DeviceStatus::Approved && fails_with(
                    Err::<(), MosaicError>(e),
                    "device '"@ + device_id@ + "' must be approved before rotate"@,
                )),
        },
{
    let i = match position_of(devices, device_id) {
        Some(i) => i,
        None => {
            return Err(MosaicError::Validation(cat3("device '", device_id, "' not found")));
        },
    };
    if devices[i].status != DeviceStatus::Approved {
        return Err(
            MosaicError::Validation(cat3("device '", device_id, "' must be approved before rotate")),
        );
    }
    let mut d = devices.remove(i);
    d.token_version = if d.token_version == u32::MAX {
        u32::MAX
    } else {
        d.token_version + 1
    };
    d.updated_at = now;
    d.last_seen_at = now;
    devices.insert(i, d);
    Ok(i)
}

/// The positions of the requests with the given status, or of all of them.
pub fn filter_pairings(pairings: &Vec<PairingRequestRecord>, status: Option<PairingStatus>) -> (out: Vec<usize>)
    ensures
        forall|k: int| 0 <= k < out@.len() ==> (#[trigger] out@[k]) < pairings@.len(),
        forall|k: int, l: int| 0 <= k < l < out@.len() ==> out@[k] < out@[l],
        forall|j: int|
            0 <= j < pairings@.len() ==> (out@.contains(j as usize) <==> match status {
                Some(s) => (#[trigger] pairings@[j]).status == s,
                None => true,
            }),
{
    let mut out: Vec<usize> = Vec::new();
    let mut i: usize = 0;
    while i < pairings.len()
        invariant
            i <= pairings.len(),
            forall|k: int| 0 <= k < out@.len() ==> (#[trigger] out@[k]) < i,
            forall|k: int, l: int| 0 <= k < l < out@.len() ==> out@[k] < out@[l],
            forall|j: int|
                0 <= j < i ==> (out@.contains(j as usize) <==> match status {
                    Some(s) => (#[trigger] pairings@[j]).status == s,
                    None => true,
                }),
        decreases pairings.len() - i,
    {
        let keep = match status {
            Some(s) => pairings[i].status == s,
            None => true,
        };
        let ghost prev = out@;
        if keep {
            out.push(i);
        }
        assert forall|j: int| 0 <= j < i + 1 implies (out@.contains(j as usize) <==> match status {
            Some(s) => (#[trigger] pairings@[j]).status == s,
            None => true,
        }) by {
            if j < i {
                if prev.contains(j as usize) {
                    let k = choose|k: int| 0 <= k < prev.len() && prev[k] == j as usize;
                    assert(out@[k] == j as usize);
                }
                if out@.contains(j as usize) {
                    let k = choose|k: int| 0 <= k < out@.len() && out@[k] == j as usize;
                    if k < prev.len() {
                        assert(prev[k] == j as usize);
                    }
                }
            } else {
                if keep {
                    assert(out@[out@.len() - 1] == i);
                } else {
                    if out@.contains(j as usize) {
                        let k = choose|k: int| 0 <= k < out@.len() && out@[k] == j as usize;
                        assert(prev[k] < i);
                    }
                }
            }
        }
        i += 1;
    }
    out
}

/// The message for an unknown pairing request.
pub open spec fn pairing_not_found(id: Seq<char>) -> Seq<char> {
    "pairing request '"@ + id + "' not found"@
}

/// The message for a pairing request that was already decided.
pub open spec fn pairing_not_pending(id: Seq<char>) -> Seq<char> {
    "pairing request '"@ + id + "' is not pending"@
}

/// The message for an unknown node.
pub open spec fn node_not_found(id: Seq<char>) -> Seq<char> {
    "node '"@ + id + "' not found"@
}

/// Finds a pending request by id.
fn pending_request(pairings: &Vec<PairingRequestRecord>, request_id: &str) -> (out: Result<usize, MosaicError>)
    ensures
        match out {
            Ok(i) => first_record_at(pairings@, request_id@, i as int) && pairings@[i as int].status
                == PairingStatus::Pending,
            Err(e) => if has_record(pairings@, request_id@) {
                exists|i: int| first_record_at(pairings@, request_id@, i) && pairings@[i].status
                    != PairingStatus::Pending && fails_with(
                    Err::<(), MosaicError>(e),
                    pairing_not_pending(request_id@),
                )
            } else {
                fails_with(Err::<(), MosaicError>(e), pairing_not_found(request_id@))
            },
        },
{
    let i = match position_of(pairings, request_id) {
        Some(i) => i,
        None => {
            return Err(MosaicError::Validation(cat3("pairing request '", request_id, "' not found")));
        },
    };
    if pairings[i].status != PairingStatus::Pending {
        return Err(MosaicError::Validation(cat3("pairing request '", request_id, "' is not pending")));
    }
    Ok(i)
}

/// A request decided at `now` with the given status and reason.
pub open spec fn request_decided(a: PairingRequestRecord, b: PairingRequestRecord, status: PairingStatus, reason: Option<Seq<char>>, now: i64) -> bool {
    &&& b.id@ == a.id@ && b.device_id@ == a.device_id@ && b.node_id@ == a.node_id@
    &&& b.status == status
    &&& opt_view(b.reason) == reason
    &&& b.requested_at == a.requested_at
    &&& b.updated_at == now
}

/// What approving a pairing request did: the request's, the device's and
/// the node's positions.
#[derive(Debug, Clone, Copy)]
pub struct PairingApproval {
    pub request: usize,
    pub device: usize,
    pub node: usize,
}

/// Approves a pending request at `now`: the request is approved, its device
/// approved (or added, named by its id), and its node marked online.
/// Nothing changes when the request is unknown or decided, or its node is
/// unknown.
pub fn approve_pairing(
    pairings: &mut Vec<PairingRequestRecord>,
    devices: &mut Vec<DeviceRecord>,
    nodes: &mut Vec<NodeRecord>,
    request_id: &str,
    now: i64,
    fingerprint: String,
) -> (out: Result<PairingApproval, MosaicError>)
    ensures
        !has_record(old(pairings)@, request_id@) ==> fails_with(out, pairing_not_found(request_id@)),
        out is Err ==> final(pairings)@ == old(pairings)@ && final(devices)@ == old(devices)@
            && final(nodes)@ == old(nodes)@,
        match out {
            Ok(r) => {
                let req = old(pairings)@[r.request as int];
                &&& first_record_at(old(pairings)@, request_id@, r.request as int)
                &&& req.status == PairingStatus::Pending
                &&& replaced_at(old(pairings)@, final(pairings)@, r.request as int)
                &&& request_decided(req, final(pairings)@[r.request as int], PairingStatus::Approved, opt_view(req.reason), now)
                &&& (has_record(old(devices)@, req.device_id@) ==> first_record_at(old(devices)@, req.device_id@, r.device as int)
                    && replaced_at(old(devices)@, final(devices)@, r.device as int)
                    && device_approved(old(devices)@[r.device as int], final(devices)@[r.device as int], None, now))
                &&& (!has_record(old(devices)@, req.device_id@) ==> r.device == old(devices)@.len()
                    && final(devices)@.drop_last() == old(devices)@ && final(devices)@.len() == old(devices)@.len() + 1
                    && new_device(final(devices)@[r.device as int], req.device_id@, req.device_id@, fingerprint@, DeviceStatus::Approved, now))
                &&& first_record_at(old(nodes)@, req.node_id@, r.node as int)
                &&& replaced_at(old(nodes)@, final(nodes)@, r.node as int)
                &&& ({
                    let (a, b) = (old(nodes)@[r.node as int], final(nodes)@[r.node as int]);
                    &&& b.id@ == a.id@ && b.name@ == a.name@ && b.capabilities@ == a.capabilities@
                    &&& b.status == NodeRuntimeStatus::Online
                    &&& b.last_seen_at == now && b.updated_at == now
                })
            },
            Err(e) => !has_record(old(pairings)@, request_id@) || (exists|i: int|
                first_record_at(old(pairings)@, request_id@, i) && (if old(pairings)@[i].status
                    != PairingStatus::Pending {
                    fails_with(Err::<(), MosaicError>(e), pairing_not_pending(request_id@))
                } else {
                    !has_record(old(nodes)@, old(pairings)@[i].node_id@) && fails_with(
                        Err::<(), MosaicError>(e),
                        node_not_found(old(pairings)@[i].node_id@),
                    )
                })),
        },
{
    let ri = pending_request(pairings, request_id)?;
    let node_i = match position_of(nodes, pairings[ri].node_id.as_str()) {
        Some(k) => k,
        None => {
            return Err(
                MosaicError::Validation(cat3("node '", pairings[ri].node_id.as_str(), "' not found")),
            );
        },
    };
    let mut req = pairings.remove(ri);
    req.status = PairingStatus::Approved;
    req.updated_at = now;
    let device_id = req.device_id.clone();
    pairings.insert(ri, req);
    let di = approve_device(devices, device_id.as_str(), None, now, fingerprint);
    let mut node = nodes.remove(node_i);
    node.status = NodeRuntimeStatus::Online;
    node.last_seen_at = now;
    node.updated_at = now;
    nodes.insert(node_i, node);
    Ok(PairingApproval { request: ri, device: di, node: node_i })
}

/// Rejects a pending request at `now` with its reason trimmed (a blank one
/// dropped); its device, if known, is rejected with that reason as its last
/// error.  The request's position.
pub fn reject_pairing(
    pairings: &mut Vec<PairingRequestRecord>,
    devices: &mut Vec<DeviceRecord>,
    request_id: &str,
    reason: Option<String>,
    now: i64,
) -> (out: Result<usize, MosaicError>)
    ensures
        !has_record(old(pairings)@, request_id@) ==> fails_with(out, pairing_not_found(request_id@)),
        out is Err ==> final(pairings)@ == old(pairings)@ && final(devices)@ == old(devices)@,
        match out {
            Ok(ri) => {
                let req = old(pairings)@[ri as int];
                let why = normalized_opt(opt_view(reason));
                &&& first_record_at(old(pairings)@, request_id@, ri as int)
                &&& req.status == PairingStatus::Pending
                &&& replaced_at(old(pairings)@, final(pairings)@, ri as int)
                &&& request_decided(req, final(pairings)@[ri as int], PairingStatus::Rejected, why, now)
                &&& (!has_record(old(devices)@, req.device_id@) ==> final(devices)@ == old(devices)@)
                &&& forall|di: int| first_record_at(old(devices)@, req.device_id@, di) ==> replaced_at(
                    old(devices)@,
                    final(devices)@,
                    di,
                ) && device_closed(old(devices)@[di], final(devices)@[di], DeviceStatus::Rejected, why, now)
            },
            Err(e) => !has_record(old(pairings)@, request_id@) || (exists|i: int|
                first_record_at(old(pairings)@, request_id@, i) && old(pairings)@[i].status
                    != PairingStatus::Pending && fails_with(
                    Err::<(), MosaicError>(e),
                    pairing_not_pending(request_id@),
                )),
        },
{
    let ri = pending_request(pairings, request_id)?;
    let why = normalize_optional(reason);
    let mut req = pairings.remove(ri);
    req.status = PairingStatus::Rejected;
    req.updated_at = now;
    req.reason = why.clone();
    let device_id = req.device_id.clone();
    pairings.insert(ri, req);
    match position_of(devices, device_id.as_str()) {
        Some(di) => {
            let mut d = devices.remove(di);
            d.status = DeviceStatus::Rejected;
            d.last_error = why;
            d.updated_at = now;
            devices.insert(di, d);
        },
        None => {},
    }
    Ok(ri)
}

/// Files a pairing request for `device` with `node` at `now`, under the id
/// `request_id`; an unknown device is added as pending first.  Whether a
/// device was added.
pub fn request_pairing(
    pairings: &mut Vec<PairingRequestRecord>,
    devices: &mut Vec<DeviceRecord>,
    nodes: &Vec<NodeRecord>,
    device: &str,
    node: &str,
    reason: Option<String>,
    now: i64,
    request_id: String,
    fingerprint: String,
) -> (out: Result<bool, MosaicError>)
    ensures
        !has_record(nodes@, node@) ==> fails_with(out, node_not_found(node@)) && final(pairings)@
            == old(pairings)@ && final(devices)@ == old(devices)@,
        has_record(nodes@, node@) ==> {
            &&& out == Ok::<bool, MosaicError>(!has_record(old(devices)@, device@))
            &&& has_record(old(devices)@, device@) ==> final(devices)@ == old(devices)@
            &&& !has_record(old(devices)@, device@) ==> final(devices)@.drop_last() == old(devices)@
                && final(devices)@.len() == old(devices)@.len() + 1 && new_device(
                final(devices)@.last(),
                device@,
                device@,
                fingerprint@,
                DeviceStatus::Pending,
                now,
            )
            &&& final(pairings)@.drop_last() == old(pairings)@
            &&& final(pairings)@.len() == old(pairings)@.len() + 1
            &&& ({
                let r = final(pairings)@.last();
                &&& r.id@ == request_id@ && r.device_id@ == device@ && r.node_id@ == node@
                &&& r.status == PairingStatus::Pending
                &&& opt_view(r.reason) == opt_view(reason)
                &&& r.requested_at == now && r.updated_at == now
            })
        },
{
    if position_of(nodes, node).is_none() {
        return Err(MosaicError::Validation(cat3("node '", node, "' not found")));
    }
    let added = position_of(devices, device).is_none();
    if added {
        devices.push(
            DeviceRecord {
                id: owned(device),
                name: owned(device),
                fingerprint,
                status: DeviceStatus::Pending,
                token_version: 1,
                last_seen_at: now,
                updated_at: now,
                last_error: None,
            },
        );
    }
    pairings.push(
        PairingRequestRecord {
            id: request_id,
            device_id: owned(device),
            node_id: owned(node),
            status: PairingStatus::Pending,
            reason,
            requested_at: now,
            updated_at: now,
        },
    );
    Ok(added)
}

} // verus!
