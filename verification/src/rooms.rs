use crate::common::report_view;
use crate::devices::IDevice;
use vstd::prelude::*;
use vstd::string::StringExecFns;

verus! {

/// A named container of devices with unique names.
///
/// `dyn IRoom` values stand in a house, so the trait carries the reporting
/// operation itself: the contract is the same as `IReporter`'s, extended
/// with a name and the list of device names.
pub trait IRoom {
    /// What `create_report` returns, as a function of the room alone.
    spec fn report(&self) -> Result<Seq<char>, Seq<char>>;

    /// The room's name.
    spec fn name_spec(&self) -> Seq<char>;

    /// The names of the contained devices, in storage order.
    spec fn device_names(&self) -> Seq<Seq<char>>;

    fn create_report(&self) -> (r: Result<String, String>)
        ensures
            report_view(r) == self.report(),
    ;

    fn get_name(&self) -> (r: &String)
        ensures
            r@ == self.name_spec(),
    ;

    fn get_devices_names(&self) -> (r: Vec<&String>)
        ensures
            r@.map_values(|s: &String| s@) == self.device_names(),
    ;
}

/// The names of a sequence of devices, in order.
pub open spec fn device_names_of(devs: Seq<&dyn IDevice>) -> Seq<Seq<char>> {
    devs.map_values(|d: &dyn IDevice| d.name_spec())
}

/// Pairwise distinctness of a sequence of names.
pub open spec fn names_unique(names: Seq<Seq<char>>) -> bool {
    forall|i: int, j: int| 0 <= i < j < names.len() ==> names[i] != names[j]
}

/// The header line of a room's report.
pub open spec fn room_header(name: Seq<char>) -> Seq<char> {
    " * комната '"@ + name + "':\n"@
}

/// One indented line of a room's report, holding one device's report text.
pub open spec fn device_line(text: Seq<char>) -> Seq<char> {
    "   - "@ + text + "\n"@
}

/// The error text a room produces when a device's report fails: it wraps
/// the device's name, the room's name, and the device's error text.
pub open spec fn room_error_text(device: Seq<char>, room: Seq<char>, inner: Seq<char>) -> Seq<char> {
    "Возникла ошибка при формировании отчёта с устройством '"@ + device + "' в комнате '"@ + room
        + "': "@ + inner
}

/// The error text of a room constructor that was given duplicate device names.
pub open spec fn duplicate_devices_text() -> Seq<char> {
    "Устройства в комнате имеют неуникальные названия"@
}

/// The aggregated outcome of reporting the devices from position `i` on,
/// in order: the concatenation of one line per device on success, or, at
/// the first failing device, that device's name and error text.
pub open spec fn devices_report_from(devs: Seq<&dyn IDevice>, i: int) -> Result<
    Seq<char>,
    (Seq<char>, Seq<char>),
>
    decreases devs.len() - i,
{
    if i < 0 || i >= devs.len() {
        Ok(Seq::<char>::empty())
    } else {
        match devs[i].report() {
            Err(e) => Err((devs[i].name_spec(), e)),
            Ok(t) => match devices_report_from(devs, i + 1) {
                Err(p) => Err(p),
                Ok(rest) => Ok(device_line(t) + rest),
            },
        }
    }
}

/// The aggregated outcome of reporting every device in order.
pub open spec fn devices_report(devs: Seq<&dyn IDevice>) -> Result<
    Seq<char>,
    (Seq<char>, Seq<char>),
> {
    devices_report_from(devs, 0)
}

/// The first `i` lines of a room's report body, one per device.
pub open spec fn device_lines_upto(devs: Seq<&dyn IDevice>, i: int) -> Seq<char>
    decreases i,
{
    if i <= 0 {
        Seq::<char>::empty()
    } else {
        device_lines_upto(devs, i - 1) + device_line(devs[i - 1].report()->Ok_0)
    }
}

/// What a room's report returns: a header line followed by one line per
/// device, or an error wrapping the first failing device.
pub open spec fn room_report(name: Seq<char>, devs: Seq<&dyn IDevice>) -> Result<
    Seq<char>,
    Seq<char>,
> {
    match devices_report(devs) {
        Ok(body) => Ok(room_header(name) + body),
        Err((device, inner)) => Err(room_error_text(device, name, inner)),
    }
}

/// When the first `i` devices all report successfully, the whole aggregation
/// is the first `i` lines followed by whatever aggregating the rest yields.
proof fn lemma_devices_report_split(devs: Seq<&dyn IDevice>, i: int)
    requires
        0 <= i <= devs.len(),
        forall|k: int| 0 <= k < i ==> (#[trigger] devs[k].report()) is Ok,
    ensures
        devices_report(devs) == match devices_report_from(devs, i) {
            Err(p) => Err(p),
            Ok(rest) => Ok::<Seq<char>, (Seq<char>, Seq<char>)>(device_lines_upto(devs, i) + rest),
        },
    decreases i,
{
    if i == 0 {
        match devices_report_from(devs, 0) {
            Err(p) => {},
            Ok(rest) => {
                assert(device_lines_upto(devs, 0) + rest =~= rest);
            },
        }
    } else {
        lemma_devices_report_split(devs, i - 1);
        assert(devs[i - 1].report() is Ok);
        match devices_report_from(devs, i) {
            Err(p) => {},
            Ok(rest) => {
                assert(device_lines_upto(devs, i - 1) + (device_line(devs[i - 1].report()->Ok_0)
                    + rest) =~= device_lines_upto(devs, i) + rest);
            },
        }
    }
}

/// Failure propagation at the room level: when every device before position
/// `i` reports successfully and the device at `i` fails, the room's report
/// fails, and its error text is exactly the failing device's name and the
/// room's name wrapped around the device's error text.
pub proof fn lemma_room_report_failure(name: Seq<char>, devs: Seq<&dyn IDevice>, i: int)
    requires
        0 <= i < devs.len(),
        forall|k: int| 0 <= k < i ==> (#[trigger] devs[k].report()) is Ok,
        devs[i].report() is Err,
    ensures
        room_report(name, devs) == Err::<Seq<char>, Seq<char>>(
            room_error_text(devs[i].name_spec(), name, devs[i].report()->Err_0),
        ),
{
    lemma_devices_report_split(devs, i);
}

fn devices_names_unique(devices: &Vec<&dyn IDevice>) -> (r: bool)
    ensures
        r == names_unique(device_names_of(devices@)),
{
    let ghost names = device_names_of(devices@);
    let n = devices.len();
    let mut i: usize = 0;
    while i < n
        invariant
            i <= n,
            n == devices@.len(),
            names == device_names_of(devices@),
            forall|p: int, q: int| 0 <= p < q < i ==> names[p] != names[q],
        decreases n - i,
    {
        let di = &devices[i];
        let name_i = di.get_name();
        proof {
            assert(names[i as int] == devices@[i as int].name_spec());
        }
        let mut j: usize = 0;
        while j < i
            invariant
                j <= i < n,
                n == devices@.len(),
                names == device_names_of(devices@),
                name_i@ == names[i as int],
                forall|p: int, q: int| 0 <= p < q < i ==> names[p] != names[q],
                forall|q: int| 0 <= q < j ==> names[q] != names[i as int],
            decreases i - j,
        {
            let dj = &devices[j];
            if dj.get_name().eq(name_i) {
                proof {
                    assert(names[j as int] == devices@[j as int].name_spec());
                    assert(!names_unique(names)) by {
                        assert(0 <= j < i < names.len());
                        assert(names[j as int] == names[i as int]);
                    }
                }
                return false;
            }
            j += 1;
        }
        i += 1;
    }
    true
}

fn collect_devices_names<'a>(devices: &Vec<&'a dyn IDevice>) -> (r: Vec<&'a String>)
    ensures
        r@.map_values(|s: &String| s@) == device_names_of(devices@),
{
    let mut out: Vec<&'a String> = Vec::new();
    let n = devices.len();
    let mut i: usize = 0;
    while i < n
        invariant
            i <= n,
            n == devices@.len(),
            out@.len() == i,
            forall|k: int| 0 <= k < i ==> (#[trigger] out@[k])@ == device_names_of(devices@)[k],
        decreases n - i,
    {
        let d = &devices[i];
        out.push(d.get_name());
        proof {
            assert(device_names_of(devices@)[i as int] == devices@[i as int].name_spec());
        }
        i += 1;
    }
    proof {
        assert(out@.map_values(|s: &String| s@) =~= device_names_of(devices@));
    }
    out
}

fn report_for_room(name: &String, devices: &Vec<&dyn IDevice>) -> (r: Result<String, String>)
    ensures
        report_view(r) == room_report(name@, devices@),
{
    let mut report = " * комната '".to_owned();
    report.append(name.as_str());
    report.append("':\n");
    proof {
        assert(report@ =~= room_header(name@));
    }
    let n = devices.len();
    let mut i: usize = 0;
    while i < n
        invariant
            i <= n,
            n == devices@.len(),
            forall|k: int| 0 <= k < i ==> (#[trigger] devices@[k].report()) is Ok,
            report@ == room_header(name@) + device_lines_upto(devices@, i as int),
        decreases n - i,
    {
        let d = &devices[i];
        let device_report = d.create_report();
        match device_report {
            Ok(t) => {
                report.append("   - ");
                report.append(t.as_str());
                report.append("\n");
                proof {
                    assert(report@ =~= room_header(name@) + device_lines_upto(
                        devices@,
                        i as int + 1,
                    ));
                }
            },
            Err(e) => {
                proof {
                    lemma_devices_report_split(devices@, i as int);
                }
                let mut message =
                    "Возникла ошибка при формировании отчёта с устройством '".to_owned();
                message.append(d.get_name().as_str());
                message.append("' в комнате '");
                message.append(name.as_str());
                message.append("': ");
                message.append(e.as_str());
                proof {
                    assert(message@ =~= room_error_text(
                        devices@[i as int].name_spec(),
                        name@,
                        e@,
                    ));
                }
                return Err(message);
            },
        }
        i += 1;
    }
    proof {
        lemma_devices_report_split(devices@, n as int);
        assert(device_lines_upto(devices@, n as int) + Seq::<char>::empty() =~= device_lines_upto(
            devices@,
            n as int,
        ));
    }
    Ok(report)
}

/// A room that owns the sequence of its device handles.
pub struct OwningRoom<'a> {
    name: String,
    devices: Vec<&'a dyn IDevice>,
}

impl<'a> OwningRoom<'a> {
    /// The stored device handles, in order.
    pub closed spec fn devices_seq(&self) -> Seq<&'a dyn IDevice> {
        self.devices@
    }

    pub fn new(name: String, devices: Vec<&'a dyn IDevice>) -> (r: Result<OwningRoom<'a>, String>)
        ensures
            r is Ok <==> names_unique(device_names_of(devices@)),
            r matches Ok(room) ==> room.name_spec() == name@,
            r matches Ok(room) ==> room.devices_seq() == devices@,
            r matches Err(e) ==> e@ == duplicate_devices_text(),
    {
        if devices_names_unique(&devices) {
            Ok(OwningRoom { name, devices })
        } else {
            Err("Устройства в комнате имеют неуникальные названия".to_owned())
        }
    }
}

impl<'a> IRoom for OwningRoom<'a> {
    open spec fn report(&self) -> Result<Seq<char>, Seq<char>> {
        room_report(self.name_spec(), self.devices_seq())
    }

    closed spec fn name_spec(&self) -> Seq<char> {
        self.name@
    }

    open spec fn device_names(&self) -> Seq<Seq<char>> {
        device_names_of(self.devices_seq())
    }

    fn create_report(&self) -> (r: Result<String, String>) {
        report_for_room(&self.name, &self.devices)
    }

    fn get_name(&self) -> (r: &String) {
        &self.name
    }

    fn get_devices_names(&self) -> (r: Vec<&String>) {
        collect_devices_names(&self.devices)
    }
}

/// A room that borrows an externally-owned sequence of device handles,
/// which must outlive the room.
pub struct BorrowingRoom<'a> {
    name: String,
    devices: &'a Vec<&'a dyn IDevice>,
}

impl<'a> BorrowingRoom<'a> {
    /// The borrowed device handles, in order.
    pub closed spec fn devices_seq(&self) -> Seq<&'a dyn IDevice> {
        self.devices@
    }

    pub fn new(name: String, devices: &'a Vec<&'a dyn IDevice>) -> (r: Result<
        BorrowingRoom<'a>,
        String,
    >)
        ensures
            r is Ok <==> names_unique(device_names_of(devices@)),
            r matches Ok(room) ==> room.name_spec() == name@,
            r matches Ok(room) ==> room.devices_seq() == devices@,
            r matches Err(e) ==> e@ == duplicate_devices_text(),
    {
        if devices_names_unique(devices) {
            Ok(BorrowingRoom { name, devices })
        } else {
            Err("Устройства в комнате имеют неуникальные названия".to_owned())
        }
    }
}

impl<'a> IRoom for BorrowingRoom<'a> {
    open spec fn report(&self) -> Result<Seq<char>, Seq<char>> {
        room_report(self.name_spec(), self.devices_seq())
    }

    closed spec fn name_spec(&self) -> Seq<char> {
        self.name@
    }

    open spec fn device_names(&self) -> Seq<Seq<char>> {
        device_names_of(self.devices_seq())
    }

    fn create_report(&self) -> (r: Result<String, String>) {
        report_for_room(&self.name, self.devices)
    }

    fn get_name(&self) -> (r: &String) {
        &self.name
    }

    fn get_devices_names(&self) -> (r: Vec<&String>) {
        collect_devices_names(self.devices)
    }
}

/// The two containment variants behave identically: an owning room and a
/// borrowing room built from the same name and the same device sequence
/// have the same device-name listing and the same report.
pub proof fn lemma_room_variants_agree<'a>(a: &OwningRoom<'a>, b: &BorrowingRoom<'a>)
    requires
        a.name_spec() == b.name_spec(),
        a.devices_seq() == b.devices_seq(),
    ensures
        a.device_names() == b.device_names(),
        a.report() == b.report(),
{
}

} // verus!
