//! Directly attached peripherals: the handles that an enumeration of the
//! hardware bus yields, the write that triggers the static effect on one,
//! and the course of a pass over all of them.
//!
//! A pass is driven from outside. The caller enumerates the devices of a
//! subsystem and hands each to [`Scan::device`], which either skips it or
//! asks for one write; the caller performs the write and reports what came
//! of it to [`PendingWrite::resolve`]. Devices are handled strictly one
//! after the other, and the first failure ends the pass.

use vstd::prelude::*;
use vstd::string::*;
use crate::error::{LightError, LightErrorView};
use crate::text::texts_view;

verus! {

/// One vendor-defined property of a device.
#[derive(Clone, Debug, PartialEq, Eq)]
pub struct Attribute {
    pub name: String,
    pub value: String,
}

/// The mathematical content of an [`Attribute`].
pub struct AttributeView {
    pub name: Seq<char>,
    pub value: Seq<char>,
}

impl View for Attribute {
    type V = AttributeView;

    open spec fn view(&self) -> AttributeView {
        AttributeView { name: self.name@, value: self.value@ }
    }
}

/// A reference to one physical peripheral, valid for the enumeration pass
/// that produced it.
#[derive(Clone, Debug, PartialEq, Eq)]
pub struct DeviceHandle {
    /// The system path, unique per device.
    pub syspath: String,
    /// The short device name.
    pub sysname: String,
    /// The attribute table.
    pub attributes: Vec<Attribute>,
}

/// The mathematical content of a [`DeviceHandle`].
pub struct DeviceView {
    pub syspath: Seq<char>,
    pub sysname: Seq<char>,
    pub attributes: Seq<AttributeView>,
}

/// The views of a sequence of attributes.
pub open spec fn attributes_view(attributes: Seq<Attribute>) -> Seq<AttributeView> {
    Seq::new(attributes.len(), |i: int| attributes[i]@)
}

impl View for DeviceHandle {
    type V = DeviceView;

    open spec fn view(&self) -> DeviceView {
        DeviceView {
            syspath: self.syspath@,
            sysname: self.sysname@,
            attributes: attributes_view(self.attributes@),
        }
    }
}

/// The value that an attribute table holds under a name: that of the last
/// attribute so named.
pub open spec fn attribute_of(attributes: Seq<AttributeView>, name: Seq<char>) -> Option<Seq<char>>
    decreases attributes.len(),
{
    if attributes.len() == 0 {
        None
    } else if attributes.last().name == name {
        Some(attributes.last().value)
    } else {
        attribute_of(attributes.drop_last(), name)
    }
}

/// Whether a device exposes the marker attribute.
pub open spec fn carries(device: DeviceView, marker: Seq<char>) -> bool {
    attribute_of(device.attributes, marker) is Some
}

/// A file name beneath a directory: the two joined by one separator,
/// which is left out where the directory is empty or already ends in one.
pub open spec fn joined(directory: Seq<char>, name: Seq<char>) -> Seq<char> {
    if directory.len() == 0 || directory.last() == '/' {
        directory + name
    } else {
        directory + "/"@ + name
    }
}

/// The attribute file that controls the static effect of a device.
pub open spec fn effect_path(syspath: Seq<char>) -> Seq<char> {
    joined(syspath, "logo_matrix_effect_static"@)
}

/// The number of bytes of a static effect command.
pub const COMMAND_LENGTH: usize = 3;

/// The bytes that a pass writes to every device. They are the wire format
/// of the peripheral's driver and mean nothing else here.
pub const FIXED_PATTERN: [u8; 3] = [0x00, 0xFF, 0x00];

/// One write to an attribute file, for the caller to perform: open the file
/// for writing, creating it if it is missing, and write the bytes at once,
/// unbuffered. Nothing is read back and nothing is tried again.
#[derive(Clone, Debug, PartialEq, Eq)]
pub struct EffectWrite {
    pub path: String,
    pub bytes: Vec<u8>,
}

/// The mathematical content of an [`EffectWrite`].
pub struct EffectWriteView {
    pub path: Seq<char>,
    pub bytes: Seq<u8>,
}

impl View for EffectWrite {
    type V = EffectWriteView;

    open spec fn view(&self) -> EffectWriteView {
        EffectWriteView { path: self.path@, bytes: self.bytes@ }
    }
}

/// What came of a write.
#[derive(Clone, Debug, PartialEq, Eq)]
pub enum WriteResult {
    /// The write returned, having taken this many bytes.
    Written(usize),
    /// The file could not be opened, or the write was rejected.
    Failed(String),
}

/// The mathematical content of a [`WriteResult`].
pub enum WriteResultView {
    Written(usize),
    Failed(Seq<char>),
}

impl View for WriteResult {
    type V = WriteResultView;

    open spec fn view(&self) -> WriteResultView {
        match self {
            WriteResult::Written(count) => WriteResultView::Written(*count),
            WriteResult::Failed(reason) => WriteResultView::Failed(reason@),
        }
    }
}

/// How a pass ended.
#[derive(Clone, Debug, PartialEq, Eq)]
pub struct PassReport {
    /// The system paths of the devices whose effect was triggered, in the
    /// order of the enumeration.
    pub triggered: Vec<String>,
    /// The error that ended the pass, if one did.
    pub error: Option<LightError>,
}

/// The mathematical content of a [`PassReport`].
pub struct PassReportView {
    pub triggered: Seq<Seq<char>>,
    pub error: Option<LightErrorView>,
}

impl View for PassReport {
    type V = PassReportView;

    open spec fn view(&self) -> PassReportView {
        PassReportView {
            triggered: texts_view(self.triggered@),
            error: match self.error {
                Some(error) => Some(error@),
                None => None,
            },
        }
    }
}

/// The attribute file that controls the static effect of the device at a
/// system path.
pub fn effect_file(syspath: &str) -> (path: String)
    ensures
        path@ == effect_path(syspath@),
{
    let length = syspath.unicode_len();
    let mut path = String::from_str(syspath);
    if length > 0 && syspath.get_char(length - 1) != '/' {
        path.append("/");
    }
    path.append("logo_matrix_effect_static");
    path
}

impl PassReport {
    /// The outcome of the pass: the error that ended it, if one did.
    pub fn into_outcome(self) -> (outcome: Result<(), LightError>)
        ensures
            match self.error {
                Some(error) => outcome == Err::<(), LightError>(error),
                None => outcome is Ok,
            },
    {
        match self.error {
            Some(error) => Err(error),
            None => Ok(()),
        }
    }
}

impl DeviceHandle {
    /// The value of an attribute, if the device exposes it.
    pub fn attribute_value(&self, name: &str) -> (found: Option<&String>)
        ensures
            match found {
                Some(value) => attribute_of(self@.attributes, name@) == Some(value@),
                None => attribute_of(self@.attributes, name@) is None,
            },
    {
        let key = String::from_str(name);
        let ghost all = attributes_view(self.attributes@);
        let mut found: Option<&String> = None;
        let mut i: usize = 0;
        while i < self.attributes.len()
            invariant
                i <= self.attributes.len(),
                key@ == name@,
                all == attributes_view(self.attributes@),
                match found {
                    Some(value) => attribute_of(all.take(i as int), name@) == Some(value@),
                    None => attribute_of(all.take(i as int), name@) is None,
                },
            decreases self.attributes.len() - i,
        {
            proof {
                assert(all.take(i + 1).drop_last() =~= all.take(i as int));
            }
            if self.attributes[i].name == key {
                found = Some(&self.attributes[i].value);
            }
            i += 1;
        }
        proof {
            assert(all.take(i as int) =~= all);
        }
        found
    }

    /// Whether the device exposes the marker attribute.
    pub fn has_attribute(&self, marker: &str) -> (present: bool)
        ensures
            present == carries(self@, marker@),
    {
        self.attribute_value(marker).is_some()
    }

    /// The attribute file that controls the static effect of the device.
    pub fn effect_path(&self) -> (path: String)
        ensures
            path@ == effect_path(self@.syspath),
    {
        effect_file(self.syspath.as_str())
    }

}

/// The write that triggers the static effect on a device: the three bytes
/// of the command, as they are, to the effect file of the device.
pub open spec fn effect_write(device: DeviceView, color: Seq<u8>) -> EffectWriteView {
    EffectWriteView { path: effect_path(device.syspath), bytes: color }
}

/// The write that triggers the static effect on a device.
pub fn trigger_static_effect(handle: &DeviceHandle, color: [u8; 3]) -> (write: EffectWrite)
    ensures
        write@ == effect_write(handle@, color@),
{
    let bytes: Vec<u8> = vec![color[0], color[1], color[2]];
    assert(bytes@ =~= color@);
    EffectWrite { path: handle.effect_path(), bytes }
}

/// A pass that awaits the next device.
#[derive(Debug)]
pub struct Scan {
    marker: String,
    triggered: Vec<String>,
}

/// The mathematical content of a [`Scan`]: the marker that selects the
/// devices, and the system paths of those whose effect was triggered so
/// far.
pub struct ScanView {
    pub marker: Seq<char>,
    pub triggered: Seq<Seq<char>>,
}

impl View for Scan {
    type V = ScanView;

    closed spec fn view(&self) -> ScanView {
        ScanView { marker: self.marker@, triggered: texts_view(self.triggered@) }
    }
}

/// A pass that has asked for a write and awaits what came of it.
#[derive(Debug)]
pub struct PendingWrite {
    scan: Scan,
    syspath: String,
}

/// The mathematical content of a [`PendingWrite`]: the pass as it stood
/// when the write was asked for, and the device that is written to.
pub struct PendingView {
    pub scan: ScanView,
    pub syspath: Seq<char>,
}

impl View for PendingWrite {
    type V = PendingView;

    closed spec fn view(&self) -> PendingView {
        PendingView { scan: self.scan@, syspath: self.syspath@ }
    }
}

/// What a pass does with one device.
#[derive(Debug)]
pub enum Step {
    /// The device lacks the marker: nothing is written, and the pass
    /// goes on as it stood.
    Skip(Scan),
    /// The device has the marker: the caller performs the write and
    /// reports what came of it.
    Write(PendingWrite, EffectWrite),
}

/// The start of a pass.
pub open spec fn begun(marker: Seq<char>) -> ScanView {
    ScanView { marker, triggered: Seq::empty() }
}

/// The report of a pass that came to the end of the enumeration.
pub open spec fn completed(scan: ScanView) -> PassReportView {
    PassReportView { triggered: scan.triggered, error: None }
}

/// The report of a pass that a failure ended.
pub open spec fn aborted(scan: ScanView, error: LightErrorView) -> PassReportView {
    PassReportView { triggered: scan.triggered, error: Some(error) }
}

/// The reason given for a write that took fewer bytes than the command
/// has.
pub open spec fn short_write(path: Seq<char>) -> Seq<char> {
    "short write to "@ + path
}

/// What a write that is awaited leads to: the pass goes on with one more
/// device triggered where the write took the whole command, and ends with
/// an `Io` error where it took less or failed.
pub open spec fn resolved(pending: PendingView, result: WriteResultView) -> Result<
    ScanView,
    PassReportView,
> {
    match result {
        WriteResultView::Written(count) => if count == COMMAND_LENGTH {
            Ok(
                ScanView {
                    marker: pending.scan.marker,
                    triggered: pending.scan.triggered.push(pending.syspath),
                },
            )
        } else {
            Err(
                aborted(
                    pending.scan,
                    LightErrorView::Io(short_write(effect_path(pending.syspath))),
                ),
            )
        },
        WriteResultView::Failed(reason) => Err(aborted(pending.scan, LightErrorView::Io(reason))),
    }
}

impl Scan {
    /// Starts a pass that triggers the effect on the devices that expose
    /// the marker attribute.
    pub fn begin(marker: &str) -> (scan: Scan)
        ensures
            scan@ == begun(marker@),
    {
        let scan = Scan { marker: String::from_str(marker), triggered: Vec::new() };
        assert(scan@.triggered =~= Seq::<Seq<char>>::empty());
        scan
    }

    /// The marker that selects the devices.
    pub fn marker(&self) -> (marker: &String)
        ensures
            marker@ == self@.marker,
    {
        &self.marker
    }

    /// The system paths of the devices whose effect was triggered so far.
    pub fn triggered(&self) -> (paths: &Vec<String>)
        ensures
            texts_view(paths@) == self@.triggered,
    {
        &self.triggered
    }

    /// Takes the next device of the enumeration.
    pub fn device(self, handle: &DeviceHandle) -> (step: Step)
        ensures
            match step {
                Step::Skip(scan) => !carries(handle@, self@.marker) && scan@ == self@,
                Step::Write(pending, write) => carries(handle@, self@.marker) && pending@ == (
                PendingView { scan: self@, syspath: handle@.syspath }) && write@ == effect_write(
                    handle@,
                    FIXED_PATTERN@,
                ),
            },
    {
        if handle.has_attribute(self.marker.as_str()) {
            let write = trigger_static_effect(handle, FIXED_PATTERN);
            Step::Write(PendingWrite { scan: self, syspath: handle.syspath.clone() }, write)
        } else {
            Step::Skip(self)
        }
    }

    /// The enumeration has come to its end: the pass is complete.
    pub fn exhausted(self) -> (report: PassReport)
        ensures
            report@ == completed(self@),
    {
        PassReport { triggered: self.triggered, error: None }
    }

    /// The device tree could not be opened, or walking it failed: the pass
    /// ends with a `BusUnavailable` error.
    pub fn bus_failed(self, reason: String) -> (report: PassReport)
        ensures
            report@ == aborted(self@, LightErrorView::BusUnavailable(reason@)),
    {
        PassReport { triggered: self.triggered, error: Some(LightError::BusUnavailable(reason)) }
    }
}

impl PendingWrite {
    /// The system path of the device that is written to.
    pub fn syspath(&self) -> (syspath: &String)
        ensures
            syspath@ == self@.syspath,
    {
        &self.syspath
    }

    /// Takes what came of the write.
    pub fn resolve(self, result: WriteResult) -> (next: Result<Scan, PassReport>)
        ensures
            match next {
                Ok(scan) => resolved(self@, result@) == Ok::<ScanView, PassReportView>(scan@),
                Err(report) => resolved(self@, result@) == Err::<ScanView, PassReportView>(
                    report@,
                ),
            },
    {
        let PendingWrite { scan, syspath } = self;
        let Scan { marker, triggered } = scan;
        match result {
            WriteResult::Written(count) => {
                if count == COMMAND_LENGTH {
                    let ghost before = texts_view(triggered@);
                    let mut triggered = triggered;
                    triggered.push(syspath);
                    assert(texts_view(triggered@) =~= before.push(syspath@));
                    Ok(Scan { marker, triggered })
                } else {
                    let mut reason = String::from_str("short write to ");
                    reason.append(effect_file(syspath.as_str()).as_str());
                    Err(PassReport { triggered, error: Some(LightError::Io(reason)) })
                }
            },
            WriteResult::Failed(reason) => Err(
                PassReport { triggered, error: Some(LightError::Io(reason)) },
            ),
        }
    }
}

/// One device of a recorded enumeration, with what a write to it comes to.
#[derive(Clone, Debug, PartialEq, Eq)]
pub struct Recorded {
    pub device: DeviceHandle,
    pub result: WriteResult,
}

/// The mathematical content of a [`Recorded`].
pub struct RecordedView {
    pub device: DeviceView,
    pub result: WriteResultView,
}

impl View for Recorded {
    type V = RecordedView;

    open spec fn view(&self) -> RecordedView {
        RecordedView { device: self.device@, result: self.result@ }
    }
}

/// The views of a recorded enumeration.
pub open spec fn recording_view(recording: Seq<Recorded>) -> Seq<RecordedView> {
    Seq::new(recording.len(), |i: int| recording[i]@)
}

/// The report of a pass over a recorded enumeration: the devices are taken
/// in their order, one without the marker is skipped, one with it is
/// written to, and the first write that does not succeed ends the pass.
pub open spec fn pass_report(scan: ScanView, recording: Seq<RecordedView>) -> PassReportView
    decreases recording.len(),
{
    if recording.len() == 0 {
        completed(scan)
    } else if !carries(recording[0].device, scan.marker) {
        pass_report(scan, recording.drop_first())
    } else {
        match resolved(
            PendingView { scan, syspath: recording[0].device.syspath },
            recording[0].result,
        ) {
            Ok(next) => pass_report(next, recording.drop_first()),
            Err(report) => report,
        }
    }
}

/// The system paths of the devices that expose the marker, in their
/// order.
pub open spec fn targets(marker: Seq<char>, recording: Seq<RecordedView>) -> Seq<Seq<char>>
    decreases recording.len(),
{
    if recording.len() == 0 {
        Seq::empty()
    } else if carries(recording.last().device, marker) {
        targets(marker, recording.drop_last()).push(recording.last().device.syspath)
    } else {
        targets(marker, recording.drop_last())
    }
}

/// Whether a write took the whole command.
pub open spec fn succeeded(result: WriteResultView) -> bool {
    result == WriteResultView::Written(COMMAND_LENGTH)
}

/// The `Io` error that a write which did not succeed ends the pass with.
pub open spec fn write_error(syspath: Seq<char>, result: WriteResultView) -> LightErrorView {
    match result {
        WriteResultView::Written(_) => LightErrorView::Io(short_write(effect_path(syspath))),
        WriteResultView::Failed(reason) => LightErrorView::Io(reason),
    }
}

fn copy_result(result: &WriteResult) -> (copy: WriteResult)
    ensures
        copy@ == result@,
{
    match result {
        WriteResult::Written(count) => WriteResult::Written(*count),
        WriteResult::Failed(reason) => WriteResult::Failed(reason.clone()),
    }
}

/// Runs a pass over a recorded enumeration, without touching any device:
/// each recorded result stands for what the write to its device comes to.
pub fn replay(marker: &str, recording: &Vec<Recorded>) -> (report: PassReport)
    ensures
        report@ == pass_report(begun(marker@), recording_view(recording@)),
{
    let ghost all = recording_view(recording@);
    let mut scan = Scan::begin(marker);
    let mut i: usize = 0;
    proof {
        assert(all.skip(0) =~= all);
    }
    while i < recording.len()
        invariant
            i <= recording.len(),
            all == recording_view(recording@),
            pass_report(begun(marker@), all) == pass_report(scan@, all.skip(i as int)),
        decreases recording.len() - i,
    {
        proof {
            assert(all.skip(i as int).drop_first() =~= all.skip(i + 1));
            assert(all.skip(i as int)[0] == all[i as int]);
        }
        match scan.device(&recording[i].device) {
            Step::Skip(same) => {
                scan = same;
            },
            Step::Write(pending, _) => {
                match pending.resolve(copy_result(&recording[i].result)) {
                    Ok(next) => {
                        scan = next;
                    },
                    Err(report) => {
                        return report;
                    },
                }
            },
        }
        i += 1;
    }
    proof {
        assert(all.skip(i as int) =~= Seq::<RecordedView>::empty());
    }
    scan.exhausted()
}

/// A pass that goes on over devices of which none exposes the marker asks
/// for no write and completes as it stood, without error, whatever a write
/// would have come to.
pub proof fn lemma_nothing_to_trigger(scan: ScanView, recording: Seq<RecordedView>)
    requires
        forall|i: int| 0 <= i < recording.len() ==> !carries((#[trigger] recording[i]).device, scan.marker),
    ensures
        pass_report(scan, recording) == completed(scan),
        targets(scan.marker, recording) == Seq::<Seq<char>>::empty(),
    decreases recording.len(),
{
    if recording.len() > 0 {
        assert(!carries(recording[0].device, scan.marker));
        assert(!carries(recording.last().device, scan.marker));
        assert forall|i: int| 0 <= i < recording.drop_first().len() implies !carries(
            (#[trigger] recording.drop_first()[i]).device,
            scan.marker,
        ) by {
            assert(recording.drop_first()[i] == recording[i + 1]);
        }
        assert forall|i: int| 0 <= i < recording.drop_last().len() implies !carries(
            (#[trigger] recording.drop_last()[i]).device,
            scan.marker,
        ) by {
            assert(recording.drop_last()[i] == recording[i]);
        }
        lemma_nothing_to_trigger(scan, recording.drop_first());
        lemma_nothing_to_trigger(scan, recording.drop_last());
    }
}

/// A pass from its start over devices of which none exposes the marker
/// triggers nothing and reports no error.
pub proof fn lemma_no_matching_device(marker: Seq<char>, recording: Seq<RecordedView>)
    requires
        forall|i: int| 0 <= i < recording.len() ==> !carries((#[trigger] recording[i]).device, marker),
    ensures
        pass_report(begun(marker), recording) == (PassReportView {
            triggered: Seq::empty(),
            error: None,
        }),
{
    lemma_nothing_to_trigger(begun(marker), recording);
}

/// The targets of an enumeration, its first device set apart.
proof fn lemma_targets_front(marker: Seq<char>, recording: Seq<RecordedView>)
    requires
        recording.len() > 0,
    ensures
        targets(marker, recording) == if carries(recording[0].device, marker) {
            seq![recording[0].device.syspath] + targets(marker, recording.drop_first())
        } else {
            targets(marker, recording.drop_first())
        },
    decreases recording.len(),
{
    if recording.len() == 1 {
        assert(recording.drop_first() =~= Seq::<RecordedView>::empty());
        assert(recording.drop_last() =~= Seq::<RecordedView>::empty());
        assert(targets(marker, recording) =~= if carries(recording[0].device, marker) {
            seq![recording[0].device.syspath] + targets(marker, recording.drop_first())
        } else {
            targets(marker, recording.drop_first())
        });
    } else {
        let shorter = recording.drop_last();
        lemma_targets_front(marker, shorter);
        assert(shorter.drop_first() =~= recording.drop_first().drop_last());
        assert(recording.drop_first().last() == recording.last());
        assert(shorter[0] == recording[0]);
        assert(targets(marker, recording) =~= if carries(recording[0].device, marker) {
            seq![recording[0].device.syspath] + targets(marker, recording.drop_first())
        } else {
            targets(marker, recording.drop_first())
        });
    }
}

/// A pass in which every write succeeds triggers the effect on exactly the
/// devices that expose the marker, in their order, and completes without
/// error.
pub proof fn lemma_all_writes_succeed(scan: ScanView, recording: Seq<RecordedView>)
    requires
        forall|i: int|
            0 <= i < recording.len() && carries((#[trigger] recording[i]).device, scan.marker)
                ==> succeeded(recording[i].result),
    ensures
        pass_report(scan, recording) == (PassReportView {
            triggered: scan.triggered + targets(scan.marker, recording),
            error: None,
        }),
    decreases recording.len(),
{
    if recording.len() == 0 {
        assert(scan.triggered + targets(scan.marker, recording) =~= scan.triggered);
    } else {
        let rest = recording.drop_first();
        lemma_targets_front(scan.marker, recording);
        assert forall|i: int|
            0 <= i < rest.len() && carries((#[trigger] rest[i]).device, scan.marker) implies succeeded(
            rest[i].result,
        ) by {
            assert(rest[i] == recording[i + 1]);
        }
        if carries(recording[0].device, scan.marker) {
            assert(succeeded(recording[0].result));
            let next = ScanView {
                marker: scan.marker,
                triggered: scan.triggered.push(recording[0].device.syspath),
            };
            lemma_all_writes_succeed(next, rest);
            assert(next.triggered + targets(scan.marker, rest) =~= scan.triggered + targets(
                scan.marker,
                recording,
            ));
        } else {
            lemma_all_writes_succeed(scan, rest);
        }
    }
}

/// The first write that does not succeed ends the pass with an `Io` error.
/// The report lists exactly the devices that were triggered before it, so
/// what was done to them stands, and it is the same whatever devices follow
/// the one that failed: none of them is touched.
pub proof fn lemma_failed_write_ends_pass(scan: ScanView, recording: Seq<RecordedView>, at: int)
    requires
        0 <= at < recording.len(),
        carries(recording[at].device, scan.marker),
        !succeeded(recording[at].result),
        forall|i: int|
            0 <= i < at && carries((#[trigger] recording[i]).device, scan.marker) ==> succeeded(
                recording[i].result,
            ),
    ensures
        pass_report(scan, recording) == (PassReportView {
            triggered: scan.triggered + targets(scan.marker, recording.take(at)),
            error: Some(write_error(recording[at].device.syspath, recording[at].result)),
        }),
        pass_report(scan, recording) == pass_report(scan, recording.take(at + 1)),
    decreases recording.len(),
{
    let rest = recording.drop_first();
    if at == 0 {
        assert(recording.take(0) =~= Seq::<RecordedView>::empty());
        assert(scan.triggered + targets(scan.marker, recording.take(0)) =~= scan.triggered);
        assert(recording.take(1)[0] == recording[0]);
    } else {
        lemma_targets_front(scan.marker, recording.take(at));
        assert(recording.take(at)[0] == recording[0]);
        assert(recording.take(at).drop_first() =~= rest.take(at - 1));
        assert(recording.take(at + 1).drop_first() =~= rest.take(at));
        assert(recording.take(at + 1)[0] == recording[0]);
        assert(rest[at - 1] == recording[at]);
        assert forall|i: int|
            0 <= i < at - 1 && carries((#[trigger] rest[i]).device, scan.marker) implies succeeded(
            rest[i].result,
        ) by {
            assert(rest[i] == recording[i + 1]);
        }
        if carries(recording[0].device, scan.marker) {
            assert(succeeded(recording[0].result));
            let next = ScanView {
                marker: scan.marker,
                triggered: scan.triggered.push(recording[0].device.syspath),
            };
            lemma_failed_write_ends_pass(next, rest, at - 1);
            assert(next.triggered + targets(scan.marker, rest.take(at - 1)) =~= scan.triggered
                + targets(scan.marker, recording.take(at)));
        } else {
            lemma_failed_write_ends_pass(scan, rest, at - 1);
        }
    }
}

} // verus!
