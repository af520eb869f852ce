//! One poll cycle: which messages a snapshot of the host gives rise to, and in
//! what order.

use vstd::prelude::*;
use vstd::string::*;
use crate::config::{drive_views, DriveConfig, DriveView};
use crate::metrics::{
    centidays, clamped_ratio, cpu, cpu_usage, lemma_clamped_ratio_in_range, state_label, uptime,
    usage, BatteryReading, CpuSampleState, CpuTimes, DiskReading, MemoryReading, FULL,
};
use crate::registry::{
    message_views, published, state_message, HomeAssistant, HomeAssistantView, Message,
    MessageView,
};
use crate::topics::state_topic;
use crate::text::{hundredths, zero_padded};

verus! {

/// What the host said of itself at one tick. Each query may have failed on
/// its own: its reading is then missing.
#[derive(Clone, Debug)]
pub struct Snapshot {
    /// Seconds since boot.
    pub uptime: Option<u64>,
    pub cpu: Option<CpuTimes>,
    pub memory: Option<MemoryReading>,
    pub swap: Option<MemoryReading>,
    /// One reading for each configured drive, in configured order.
    pub disks: Vec<Option<DiskReading>>,
    /// The batteries that were found, in the order in which they were found.
    pub batteries: Vec<BatteryReading>,
}

/// A snapshot with its disk readings and batteries as sequences.
pub struct SnapshotView {
    pub uptime: Option<u64>,
    pub cpu: Option<CpuTimes>,
    pub memory: Option<MemoryReading>,
    pub swap: Option<MemoryReading>,
    pub disks: Seq<Option<DiskReading>>,
    pub batteries: Seq<BatteryReading>,
}

impl View for Snapshot {
    type V = SnapshotView;

    open spec fn view(&self) -> SnapshotView {
        SnapshotView {
            uptime: self.uptime,
            cpu: self.cpu,
            memory: self.memory,
            swap: self.swap,
            disks: self.disks@,
            batteries: self.batteries@,
        }
    }
}

/// The previous processor sample, if there has been one, as its used and
/// total time.
pub open spec fn sample_view(state: Option<CpuSampleState>) -> Option<(nat, nat)> {
    match state {
        Some(s) => Some(s@),
        None => None,
    }
}

/// At most one message, as a sequence.
pub open spec fn one(message: Option<MessageView>) -> Seq<MessageView> {
    match message {
        Some(m) => seq![m],
        None => Seq::empty(),
    }
}

/// The uptime message: days since boot, where the uptime was read.
pub open spec fn uptime_part(registry: HomeAssistantView, seconds: Option<u64>) -> Seq<MessageView> {
    match seconds {
        Some(s) => one(published(registry, "uptime"@, hundredths(centidays(s as nat)))),
        None => Seq::empty(),
    }
}

/// The processor message: usage since the previous sample, where the counters
/// were read and there is a previous sample to measure from.
pub open spec fn cpu_part(
    registry: HomeAssistantView,
    previous: Option<(nat, nat)>,
    times: Option<CpuTimes>,
) -> Seq<MessageView> {
    match (previous, times) {
        (Some(p), Some(t)) => one(published(registry, "cpu"@, hundredths(cpu_usage(p, t)))),
        _ => Seq::empty(),
    }
}

/// The processor sample to measure from next time: the counters just read, or
/// the previous sample where they could not be read.
pub open spec fn next_sample(previous: Option<(nat, nat)>, times: Option<CpuTimes>) -> Option<
    (nat, nat),
> {
    match times {
        Some(t) => Some((t.used(), t.total())),
        None => previous,
    }
}

/// The message for a store of memory under the sensor `name`, where it was
/// read.
pub open spec fn memory_part(
    registry: HomeAssistantView,
    name: Seq<char>,
    reading: Option<MemoryReading>,
) -> Seq<MessageView> {
    match reading {
        Some(r) => one(
            published(registry, name, hundredths(usage(r.total as nat, r.available as nat))),
        ),
        None => Seq::empty(),
    }
}

/// The reading for the drive at place `index`: missing where the snapshot
/// holds none for it.
pub open spec fn reading_at(disks: Seq<Option<DiskReading>>, index: int) -> Option<DiskReading> {
    if 0 <= index < disks.len() {
        disks[index]
    } else {
        None
    }
}

/// The message for one drive, where its usage was read. A drive that could
/// not be read is passed over for this cycle.
pub open spec fn drive_part(
    registry: HomeAssistantView,
    drive: DriveView,
    reading: Option<DiskReading>,
) -> Seq<MessageView> {
    match reading {
        Some(r) => one(
            published(registry, drive.name, hundredths(usage(r.total as nat, r.free as nat))),
        ),
        None => Seq::empty(),
    }
}

/// The messages for the first `count` drives, in configured order.
pub open spec fn drives_part(
    registry: HomeAssistantView,
    drives: Seq<DriveView>,
    disks: Seq<Option<DiskReading>>,
    count: nat,
) -> Seq<MessageView>
    decreases count,
{
    if count == 0 {
        Seq::empty()
    } else {
        drives_part(registry, drives, disks, (count - 1) as nat) + drive_part(
            registry,
            drives[count - 1],
            reading_at(disks, count - 1),
        )
    }
}

/// The charge level of a battery as it is published: whole percents in three
/// digits.
pub open spec fn level_text(battery: BatteryReading) -> Seq<char> {
    zero_padded(clamped_ratio(battery.energy as int, battery.energy_full as int) / 100, 3)
}

/// The battery that is reported: the first that was found. Where there are
/// several, the others are left aside; nothing is added up.
pub open spec fn reported_battery(batteries: Seq<BatteryReading>) -> Option<BatteryReading> {
    if batteries.len() > 0 {
        Some(batteries[0])
    } else {
        None
    }
}

/// The battery messages: first the state, then the charge level, of the
/// battery that is reported. Without a battery there are none.
pub open spec fn battery_part(registry: HomeAssistantView, batteries: Seq<BatteryReading>) -> Seq<
    MessageView,
> {
    match reported_battery(batteries) {
        Some(b) => one(published(registry, "battery_state"@, state_label(b.state))) + one(
            published(registry, "battery_level"@, level_text(b)),
        ),
        None => Seq::empty(),
    }
}

/// What a cycle publishes before it comes to the drives: uptime, processor,
/// memory and swap.
pub open spec fn before_drives(
    registry: HomeAssistantView,
    previous: Option<(nat, nat)>,
    snapshot: SnapshotView,
) -> Seq<MessageView> {
    uptime_part(registry, snapshot.uptime) + cpu_part(registry, previous, snapshot.cpu)
        + memory_part(registry, "memory"@, snapshot.memory) + memory_part(
        registry,
        "swap"@,
        snapshot.swap,
    )
}

/// The messages of one cycle, in the order in which they are published:
/// uptime, processor, memory, swap, each drive in configured order, battery
/// state, battery level. A metric is left out where its reading is missing or
/// its sensor is not registered.
pub open spec fn cycle_messages(
    registry: HomeAssistantView,
    drives: Seq<DriveView>,
    previous: Option<(nat, nat)>,
    snapshot: SnapshotView,
) -> Seq<MessageView> {
    before_drives(registry, previous, snapshot) + drives_part(
        registry,
        drives,
        snapshot.disks,
        drives.len(),
    ) + battery_part(registry, snapshot.batteries)
}

/// Whether the first `count` drives were all read, and all have their sensor
/// registered.
pub open spec fn drives_succeed(
    registry: HomeAssistantView,
    drives: Seq<DriveView>,
    disks: Seq<Option<DiskReading>>,
    count: nat,
) -> bool {
    &&& count <= drives.len()
    &&& count <= disks.len()
    &&& forall|i: int|
        0 <= i < count ==> registry.names.contains(#[trigger] drives[i].name) && disks[i] is Some
}

/// The message that reports the usage of the drive at place `index`.
pub open spec fn drive_report(
    registry: HomeAssistantView,
    drives: Seq<DriveView>,
    disks: Seq<Option<DiskReading>>,
    index: int,
) -> MessageView {
    state_message(
        registry.hostname,
        drives[index].name,
        hundredths(usage(disks[index]->0.total as nat, disks[index]->0.free as nat)),
    )
}

/// Where every drive was read and has its sensor registered, the drives give
/// rise to exactly one message each, in configured order, and each carries a
/// percentage between 0 and 100.
pub proof fn lemma_one_report_for_each_drive(
    registry: HomeAssistantView,
    drives: Seq<DriveView>,
    disks: Seq<Option<DiskReading>>,
    count: nat,
)
    requires
        drives_succeed(registry, drives, disks, count),
    ensures
        drives_part(registry, drives, disks, count).len() == count,
        forall|i: int|
            0 <= i < count ==> {
                &&& #[trigger] drives_part(registry, drives, disks, count)[i] == drive_report(
                    registry,
                    drives,
                    disks,
                    i,
                )
                &&& usage(disks[i]->0.total as nat, disks[i]->0.free as nat) <= FULL
            },
    decreases count,
{
    if count > 0 {
        let shorter = (count - 1) as nat;
        lemma_one_report_for_each_drive(registry, drives, disks, shorter);
        let last = count - 1;
        assert(registry.names.contains(drives[last].name) && disks[last] is Some);
        let reading = disks[last]->0;
        lemma_clamped_ratio_in_range(reading.total - reading.free, reading.total as int);
        let earlier = drives_part(registry, drives, disks, shorter);
        let all = drives_part(registry, drives, disks, count);
        assert(drive_part(registry, drives[last], reading_at(disks, last)) == seq![
            drive_report(registry, drives, disks, last),
        ]);
        assert(all == earlier + seq![drive_report(registry, drives, disks, last)]);
        assert forall|i: int| 0 <= i < count implies {
            &&& #[trigger] all[i] == drive_report(registry, drives, disks, i)
            &&& usage(disks[i]->0.total as nat, disks[i]->0.free as nat) <= FULL
        } by {
            if i < shorter {
                assert(all[i] == earlier[i]);
            } else {
                assert(all[i] == drive_report(registry, drives, disks, last));
            }
        }
    }
}

/// One report for each drive, in configured order.
pub open spec fn drive_reports(
    registry: HomeAssistantView,
    drives: Seq<DriveView>,
    disks: Seq<Option<DiskReading>>,
) -> Seq<MessageView> {
    Seq::new(drives.len(), |i: int| drive_report(registry, drives, disks, i))
}

/// In a cycle in which every drive was read and has its sensor registered,
/// the drives give rise to exactly one message each: between what comes
/// before the drives and the battery messages stand the reports of the
/// drives, one for each, in configured order, each with a percentage between
/// 0 and 100.
pub proof fn lemma_cycle_reports_each_drive(
    registry: HomeAssistantView,
    drives: Seq<DriveView>,
    previous: Option<(nat, nat)>,
    snapshot: SnapshotView,
)
    requires
        drives_succeed(registry, drives, snapshot.disks, drives.len()),
    ensures
        cycle_messages(registry, drives, previous, snapshot) == before_drives(
            registry,
            previous,
            snapshot,
        ) + drive_reports(registry, drives, snapshot.disks) + battery_part(
            registry,
            snapshot.batteries,
        ),
        forall|i: int|
            0 <= i < drives.len() ==> usage(
                (#[trigger] snapshot.disks[i])->0.total as nat,
                snapshot.disks[i]->0.free as nat,
            ) <= FULL,
{
    lemma_one_report_for_each_drive(registry, drives, snapshot.disks, drives.len());
    let middle = drives_part(registry, drives, snapshot.disks, drives.len());
    assert(middle =~= drive_reports(registry, drives, snapshot.disks));
    assert forall|i: int| 0 <= i < drives.len() implies usage(
        (#[trigger] snapshot.disks[i])->0.total as nat,
        snapshot.disks[i]->0.free as nat,
    ) <= FULL by {
        assert(middle[i] == drive_report(registry, drives, snapshot.disks, i));
    }
}

/// Whether `message` carries a value of a registered sensor: it is not
/// retained, and goes to the state topic of a registered name.
pub open spec fn reports_registered(registry: HomeAssistantView, message: MessageView) -> bool {
    &&& !message.retain
    &&& exists|name: Seq<char>|
        registry.names.contains(name) && message.topic == #[trigger] state_topic(
            registry.hostname,
            name,
        )
}

proof fn lemma_one_reports_registered(
    registry: HomeAssistantView,
    name: Seq<char>,
    value: Seq<char>,
    i: int,
)
    requires
        0 <= i < one(published(registry, name, value)).len(),
    ensures
        reports_registered(registry, one(published(registry, name, value))[i]),
{
    assert(registry.names.contains(name));
    assert(one(published(registry, name, value))[i].topic == state_topic(registry.hostname, name));
}

proof fn lemma_drives_report_registered(
    registry: HomeAssistantView,
    drives: Seq<DriveView>,
    disks: Seq<Option<DiskReading>>,
    count: nat,
    i: int,
)
    requires
        0 <= i < drives_part(registry, drives, disks, count).len(),
    ensures
        reports_registered(registry, drives_part(registry, drives, disks, count)[i]),
    decreases count,
{
    if count > 0 {
        let earlier = drives_part(registry, drives, disks, (count - 1) as nat);
        if i < earlier.len() {
            lemma_drives_report_registered(registry, drives, disks, (count - 1) as nat, i);
        } else {
            let reading = reading_at(disks, count - 1);
            let r = reading->0;
            lemma_one_reports_registered(
                registry,
                drives[count - 1].name,
                hundredths(usage(r.total as nat, r.free as nat)),
                i - earlier.len(),
            );
        }
    }
}

/// Whatever the snapshot, a cycle publishes values of registered sensors
/// only, and retains none of them.
pub proof fn lemma_cycle_reports_registered_only(
    registry: HomeAssistantView,
    drives: Seq<DriveView>,
    previous: Option<(nat, nat)>,
    snapshot: SnapshotView,
)
    ensures
        forall|i: int|
            0 <= i < cycle_messages(registry, drives, previous, snapshot).len()
                ==> reports_registered(
                registry,
                #[trigger] cycle_messages(registry, drives, previous, snapshot)[i],
            ),
{
    let all = cycle_messages(registry, drives, previous, snapshot);
    let a = uptime_part(registry, snapshot.uptime);
    let b = cpu_part(registry, previous, snapshot.cpu);
    let c = memory_part(registry, "memory"@, snapshot.memory);
    let d = memory_part(registry, "swap"@, snapshot.swap);
    let e = drives_part(registry, drives, snapshot.disks, drives.len());
    let f = battery_part(registry, snapshot.batteries);
    assert(all =~= a + b + c + d + e + f);
    assert forall|i: int| 0 <= i < all.len() implies reports_registered(
        registry,
        #[trigger] all[i],
    ) by {
        if i < a.len() {
            lemma_one_reports_registered(
                registry,
                "uptime"@,
                hundredths(centidays(snapshot.uptime->0 as nat)),
                i,
            );
        } else if i < a.len() + b.len() {
            lemma_one_reports_registered(
                registry,
                "cpu"@,
                hundredths(cpu_usage(previous->0, snapshot.cpu->0)),
                i - a.len(),
            );
        } else if i < a.len() + b.len() + c.len() {
            let r = snapshot.memory->0;
            lemma_one_reports_registered(
                registry,
                "memory"@,
                hundredths(usage(r.total as nat, r.available as nat)),
                i - a.len() - b.len(),
            );
        } else if i < a.len() + b.len() + c.len() + d.len() {
            let r = snapshot.swap->0;
            lemma_one_reports_registered(
                registry,
                "swap"@,
                hundredths(usage(r.total as nat, r.available as nat)),
                i - a.len() - b.len() - c.len(),
            );
        } else if i < a.len() + b.len() + c.len() + d.len() + e.len() {
            lemma_drives_report_registered(
                registry,
                drives,
                snapshot.disks,
                drives.len(),
                i - a.len() - b.len() - c.len() - d.len(),
            );
        } else {
            let battery = snapshot.batteries[0];
            let first = one(published(registry, "battery_state"@, state_label(battery.state)));
            let second = one(published(registry, "battery_level"@, level_text(battery)));
            let k = i - a.len() - b.len() - c.len() - d.len() - e.len();
            assert(f == first + second);
            if k < first.len() {
                lemma_one_reports_registered(
                    registry,
                    "battery_state"@,
                    state_label(battery.state),
                    k,
                );
            } else {
                lemma_one_reports_registered(
                    registry,
                    "battery_level"@,
                    level_text(battery),
                    k - first.len(),
                );
            }
        }
    }
}

fn put(messages: &mut Vec<Message>, message: Option<Message>)
    ensures
        message_views(final(messages)@) == message_views(old(messages)@) + one(
            match message {
                Some(m) => Some(m@),
                None => None,
            },
        ),
{
    match message {
        Some(m) => {
            messages.push(m);
            assert(message_views(messages@) =~= message_views(old(messages)@) + seq![m@]);
        },
        None => {
            assert(message_views(messages@) =~= message_views(old(messages)@) + Seq::empty());
        },
    }
}

fn put_uptime(messages: &mut Vec<Message>, registry: &HomeAssistant, seconds: Option<u64>)
    ensures
        message_views(final(messages)@) == message_views(old(messages)@) + uptime_part(
            registry@,
            seconds,
        ),
{
    match seconds {
        Some(s) => {
            put(messages, registry.publish("uptime", uptime(s)));
        },
        None => {
            assert(message_views(messages@) =~= message_views(old(messages)@) + Seq::empty());
        },
    }
}

fn put_cpu(
    messages: &mut Vec<Message>,
    registry: &HomeAssistant,
    previous: Option<CpuSampleState>,
    times: Option<CpuTimes>,
) -> (next: Option<CpuSampleState>)
    ensures
        message_views(final(messages)@) == message_views(old(messages)@) + cpu_part(
            registry@,
            sample_view(previous),
            times,
        ),
        sample_view(next) == next_sample(sample_view(previous), times),
{
    match times {
        Some(t) => {
            match previous {
                Some(state) => {
                    let (percent, next) = cpu(state, &t);
                    put(messages, registry.publish("cpu", percent.text()));
                    Some(next)
                },
                None => {
                    assert(message_views(messages@) =~= message_views(old(messages)@)
                        + Seq::empty());
                    Some(CpuSampleState::observe(&t))
                },
            }
        },
        None => {
            assert(message_views(messages@) =~= message_views(old(messages)@) + Seq::empty());
            previous
        },
    }
}

fn put_memory(
    messages: &mut Vec<Message>,
    registry: &HomeAssistant,
    name: &str,
    reading: Option<MemoryReading>,
)
    ensures
        message_views(final(messages)@) == message_views(old(messages)@) + memory_part(
            registry@,
            name@,
            reading,
        ),
{
    match reading {
        Some(r) => {
            put(messages, registry.publish(name, r.percent().text()));
        },
        None => {
            assert(message_views(messages@) =~= message_views(old(messages)@) + Seq::empty());
        },
    }
}

fn put_drive(
    messages: &mut Vec<Message>,
    registry: &HomeAssistant,
    drive: &DriveConfig,
    reading: Option<DiskReading>,
)
    ensures
        message_views(final(messages)@) == message_views(old(messages)@) + drive_part(
            registry@,
            drive@,
            reading,
        ),
{
    match reading {
        Some(r) => {
            put(messages, registry.publish(drive.name.as_str(), r.percent().text()));
        },
        None => {
            assert(message_views(messages@) =~= message_views(old(messages)@) + Seq::empty());
        },
    }
}

fn put_drives(
    messages: &mut Vec<Message>,
    registry: &HomeAssistant,
    drives: &Vec<DriveConfig>,
    disks: &Vec<Option<DiskReading>>,
)
    ensures
        message_views(final(messages)@) == message_views(old(messages)@) + drives_part(
            registry@,
            drive_views(drives@),
            disks@,
            drives@.len(),
        ),
{
    let ghost head = message_views(messages@);
    assert(head =~= head + Seq::<MessageView>::empty());
    let mut index: usize = 0;
    while index < drives.len()
        invariant
            index <= drives.len(),
            message_views(messages@) == head + drives_part(
                registry@,
                drive_views(drives@),
                disks@,
                index as nat,
            ),
        decreases drives.len() - index,
    {
        let ghost done = drives_part(registry@, drive_views(drives@), disks@, index as nat);
        let reading = if index < disks.len() {
            disks[index]
        } else {
            None
        };
        put_drive(messages, registry, &drives[index], reading);
        proof {
            let part = drive_part(
                registry@,
                drive_views(drives@)[index as int],
                reading_at(disks@, index as int),
            );
            assert(message_views(messages@) =~= head + (done + part));
        }
        index += 1;
    }
}

fn put_battery(
    messages: &mut Vec<Message>,
    registry: &HomeAssistant,
    batteries: &Vec<BatteryReading>,
)
    ensures
        message_views(final(messages)@) == message_views(old(messages)@) + battery_part(
            registry@,
            batteries@,
        ),
{
    let battery = if batteries.len() > 0 {
        Some(batteries[0])
    } else {
        None
    };
    match battery {
        Some(b) => {
            put(messages, registry.publish("battery_state", String::from_str(b.state.label())));
            let ghost first = one(published(registry@, "battery_state"@, state_label(b.state)));
            put(messages, registry.publish("battery_level", b.level().padded_text()));
            let ghost second = one(published(registry@, "battery_level"@, level_text(b)));
            assert(message_views(messages@) =~= message_views(old(messages)@) + (first
                + second));
        },
        None => {
            assert(message_views(messages@) =~= message_views(old(messages)@) + Seq::empty());
        },
    }
}

/// Turns the snapshot of one tick into the messages to publish, in order, and
/// into the processor sample to measure from at the next tick.
pub fn cycle(
    registry: &HomeAssistant,
    drives: &Vec<DriveConfig>,
    previous: Option<CpuSampleState>,
    snapshot: &Snapshot,
) -> (r: (Vec<Message>, Option<CpuSampleState>))
    ensures
        message_views(r.0@) == cycle_messages(
            registry@,
            drive_views(drives@),
            sample_view(previous),
            snapshot@,
        ),
        sample_view(r.1) == next_sample(sample_view(previous), snapshot.cpu),
{
    let mut messages: Vec<Message> = Vec::new();
    let ghost nothing = message_views(messages@);
    assert(nothing =~= Seq::empty());
    put_uptime(&mut messages, registry, snapshot.uptime);
    let next = put_cpu(&mut messages, registry, previous, snapshot.cpu);
    put_memory(&mut messages, registry, "memory", snapshot.memory);
    put_memory(&mut messages, registry, "swap", snapshot.swap);
    put_drives(&mut messages, registry, drives, &snapshot.disks);
    put_battery(&mut messages, registry, &snapshot.batteries);
    assert(message_views(messages@) =~= cycle_messages(
        registry@,
        drive_views(drives@),
        sample_view(previous),
        snapshot@,
    ));
    (messages, next)
}

} // verus!
