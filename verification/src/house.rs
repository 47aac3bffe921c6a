use crate::common::{report_view, IReporter};
use crate::rooms::{names_unique, IRoom};
use vstd::prelude::*;
use vstd::string::StringExecFns;

verus! {

/// The names of a sequence of rooms, in order.
pub open spec fn room_names_of(rooms: Seq<&dyn IRoom>) -> Seq<Seq<char>> {
    rooms.map_values(|r: &dyn IRoom| r.name_spec())
}

/// The header line of a house's report.
pub open spec fn house_header(name: Seq<char>) -> Seq<char> {
    "Отчёт по дому '"@ + name + "':\n"@
}

/// The error text a house produces when a room's report fails: it wraps the
/// house's name around the room's error text.
pub open spec fn house_error_text(house: Seq<char>, inner: Seq<char>) -> Seq<char> {
    "Возникла ошибка при формировании отчёта по дому '"@ + house + "': "@ + inner
}

/// The error text of the house constructor when given duplicate room names.
pub open spec fn duplicate_rooms_text() -> Seq<char> {
    "Комнаты в доме имеют неуникальные названия"@
}

/// The error text of the device-name lookup when no room carries the name.
pub open spec fn missing_room_text(room: Seq<char>) -> Seq<char> {
    "В доме нет комнаты с названием '"@ + room + "'"@
}

/// The aggregated outcome of reporting the rooms from position `i` on, in
/// order: the concatenation of the room reports on success, or the first
/// failing room's error text.
pub open spec fn rooms_report_from(rooms: Seq<&dyn IRoom>, i: int) -> Result<Seq<char>, Seq<char>>
    decreases rooms.len() - i,
{
    if i < 0 || i >= rooms.len() {
        Ok(Seq::<char>::empty())
    } else {
        match rooms[i].report() {
            Err(e) => Err(e),
            Ok(t) => match rooms_report_from(rooms, i + 1) {
                Err(e) => Err(e),
                Ok(rest) => Ok(t + rest),
            },
        }
    }
}

/// The aggregated outcome of reporting every room in order.
pub open spec fn rooms_report(rooms: Seq<&dyn IRoom>) -> Result<Seq<char>, Seq<char>> {
    rooms_report_from(rooms, 0)
}

/// The concatenation of the first `i` rooms' report texts.
pub open spec fn room_texts_upto(rooms: Seq<&dyn IRoom>, i: int) -> Seq<char>
    decreases i,
{
    if i <= 0 {
        Seq::<char>::empty()
    } else {
        room_texts_upto(rooms, i - 1) + rooms[i - 1].report()->Ok_0
    }
}

/// What a house's report returns: a header line followed by every room's
/// report in order, or an error wrapping the first failing room.
pub open spec fn house_report(name: Seq<char>, rooms: Seq<&dyn IRoom>) -> Result<
    Seq<char>,
    Seq<char>,
> {
    match rooms_report(rooms) {
        Ok(body) => Ok(house_header(name) + body),
        Err(inner) => Err(house_error_text(name, inner)),
    }
}

/// The position of the first room carrying the given name, scanning from
/// position `i` on.
pub open spec fn room_lookup_from(rooms: Seq<&dyn IRoom>, name: Seq<char>, i: int) -> Option<int>
    decreases rooms.len() - i,
{
    if i < 0 || i >= rooms.len() {
        None
    } else if rooms[i].name_spec() == name {
        Some(i)
    } else {
        room_lookup_from(rooms, name, i + 1)
    }
}

/// The position of the first room carrying the given name, if any.
pub open spec fn room_lookup(rooms: Seq<&dyn IRoom>, name: Seq<char>) -> Option<int> {
    room_lookup_from(rooms, name, 0)
}

/// When the first `i` rooms all report successfully, the whole aggregation
/// is their texts followed by whatever aggregating the rest yields.
proof fn lemma_rooms_report_split(rooms: Seq<&dyn IRoom>, i: int)
    requires
        0 <= i <= rooms.len(),
        forall|k: int| 0 <= k < i ==> (#[trigger] rooms[k].report()) is Ok,
    ensures
        rooms_report(rooms) == match rooms_report_from(rooms, i) {
            Err(e) => Err(e),
            Ok(rest) => Ok::<Seq<char>, Seq<char>>(room_texts_upto(rooms, i) + rest),
        },
    decreases i,
{
    if i == 0 {
        match rooms_report_from(rooms, 0) {
            Err(e) => {},
            Ok(rest) => {
                assert(room_texts_upto(rooms, 0) + rest =~= rest);
            },
        }
    } else {
        lemma_rooms_report_split(rooms, i - 1);
        assert(rooms[i - 1].report() is Ok);
        match rooms_report_from(rooms, i) {
            Err(e) => {},
            Ok(rest) => {
                assert(room_texts_upto(rooms, i - 1) + (rooms[i - 1].report()->Ok_0 + rest)
                    =~= room_texts_upto(rooms, i) + rest);
            },
        }
    }
}

/// When none of the first `i` rooms carries the name, the lookup over the
/// whole sequence is the lookup from position `i` on.
proof fn lemma_room_lookup_prefix(rooms: Seq<&dyn IRoom>, name: Seq<char>, i: int)
    requires
        0 <= i <= rooms.len(),
        forall|k: int| 0 <= k < i ==> (#[trigger] rooms[k].name_spec()) != name,
    ensures
        room_lookup(rooms, name) == room_lookup_from(rooms, name, i),
    decreases i,
{
    if i > 0 {
        lemma_room_lookup_prefix(rooms, name, i - 1);
        assert(rooms[i - 1].name_spec() != name);
    }
}

/// Failure propagation at the house level: when every room before position
/// `i` reports successfully and the room at `i` fails, the house's report
/// fails, and its error text is exactly the house's name wrapped around the
/// failing room's error text.
pub proof fn lemma_house_report_failure(name: Seq<char>, rooms: Seq<&dyn IRoom>, i: int)
    requires
        0 <= i < rooms.len(),
        forall|k: int| 0 <= k < i ==> (#[trigger] rooms[k].report()) is Ok,
        rooms[i].report() is Err,
    ensures
        house_report(name, rooms) == Err::<Seq<char>, Seq<char>>(
            house_error_text(name, rooms[i].report()->Err_0),
        ),
{
    lemma_rooms_report_split(rooms, i);
}

fn rooms_names_unique(rooms: &Vec<&dyn IRoom>) -> (r: bool)
    ensures
        r == names_unique(room_names_of(rooms@)),
{
    let ghost names = room_names_of(rooms@);
    let n = rooms.len();
    let mut i: usize = 0;
    while i < n
        invariant
            i <= n,
            n == rooms@.len(),
            names == room_names_of(rooms@),
            forall|p: int, q: int| 0 <= p < q < i ==> names[p] != names[q],
        decreases n - i,
    {
        let ri = &rooms[i];
        let name_i = ri.get_name();
        proof {
            assert(names[i as int] == rooms@[i as int].name_spec());
        }
        let mut j: usize = 0;
        while j < i
            invariant
                j <= i < n,
                n == rooms@.len(),
                names == room_names_of(rooms@),
                name_i@ == names[i as int],
                forall|p: int, q: int| 0 <= p < q < i ==> names[p] != names[q],
                forall|q: int| 0 <= q < j ==> names[q] != names[i as int],
            decreases i - j,
        {
            let rj = &rooms[j];
            if rj.get_name().eq(name_i) {
                proof {
                    assert(names[j as int] == rooms@[j as int].name_spec());
                    assert(!names_unique(names)) by {
                        assert(0 <= j < i < names.len());
                        assert(names[j as int] == names[i as int]);
                    }
                }
                return false;
            }
            j += 1;
        }
        i += 1;
    }
    true
}

/// A named container of rooms with unique names. The rooms are referenced,
/// not owned, and must outlive the house.
pub struct SmartHouse<'a> {
    name: String,
    rooms: Vec<&'a dyn IRoom>,
}

impl<'a> SmartHouse<'a> {
    /// The referenced rooms, in order.
    pub closed spec fn rooms_seq(&self) -> Seq<&'a dyn IRoom> {
        self.rooms@
    }

    /// The house's name.
    pub closed spec fn name_spec(&self) -> Seq<char> {
        self.name@
    }

    pub fn new(name: String, rooms: Vec<&'a dyn IRoom>) -> (r: Result<SmartHouse<'a>, String>)
        ensures
            r is Ok <==> names_unique(room_names_of(rooms@)),
            r matches Ok(house) ==> house.name_spec() == name@,
            r matches Ok(house) ==> house.rooms_seq() == rooms@,
            r matches Err(e) ==> e@ == duplicate_rooms_text(),
    {
        if rooms_names_unique(&rooms) {
            Ok(SmartHouse { name, rooms })
        } else {
            Err("Комнаты в доме имеют неуникальные названия".to_owned())
        }
    }

    pub fn get_name(&self) -> (r: &String)
        ensures
            r@ == self.name_spec(),
    {
        &self.name
    }

    pub fn get_room_names(&self) -> (r: Vec<&String>)
        ensures
            r@.map_values(|s: &String| s@) == room_names_of(self.rooms_seq()),
    {
        let mut out: Vec<&String> = Vec::new();
        let n = self.rooms.len();
        let mut i: usize = 0;
        while i < n
            invariant
                i <= n,
                n == self.rooms@.len(),
                self.rooms@ == self.rooms_seq(),
                out@.len() == i,
                forall|k: int|
                    0 <= k < i ==> (#[trigger] out@[k])@ == room_names_of(self.rooms_seq())[k],
            decreases n - i,
        {
            let room = &self.rooms[i];
            out.push(room.get_name());
            proof {
                assert(room_names_of(self.rooms_seq())[i as int]
                    == self.rooms_seq()[i as int].name_spec());
            }
            i += 1;
        }
        proof {
            assert(out@.map_values(|s: &String| s@) =~= room_names_of(self.rooms_seq()));
        }
        out
    }

    /// Looks the named room up and returns its device names; fails, naming
    /// the room, when no room carries the name.
    pub fn get_room_devices_names(&self, room_name: &str) -> (r: Result<Vec<&String>, String>)
        ensures
            match room_lookup(self.rooms_seq(), room_name@) {
                Some(i) => r matches Ok(v) && v@.map_values(|s: &String| s@)
                    == self.rooms_seq()[i].device_names(),
                None => r matches Err(e) && e@ == missing_room_text(room_name@),
            },
    {
        let target = room_name.to_owned();
        let n = self.rooms.len();
        let mut i: usize = 0;
        while i < n
            invariant
                i <= n,
                n == self.rooms@.len(),
                self.rooms@ == self.rooms_seq(),
                target@ == room_name@,
                forall|k: int|
                    0 <= k < i ==> (#[trigger] self.rooms_seq()[k].name_spec()) != room_name@,
            decreases n - i,
        {
            let room = &self.rooms[i];
            if room.get_name().eq(&target) {
                proof {
                    lemma_room_lookup_prefix(self.rooms_seq(), room_name@, i as int);
                }
                return Ok(room.get_devices_names());
            }
            i += 1;
        }
        proof {
            lemma_room_lookup_prefix(self.rooms_seq(), room_name@, n as int);
        }
        let mut message = "В доме нет комнаты с названием '".to_owned();
        message.append(room_name);
        message.append("'");
        proof {
            assert(message@ =~= missing_room_text(room_name@));
        }
        Err(message)
    }
}

impl<'a> IReporter for SmartHouse<'a> {
    open spec fn report(&self) -> Result<Seq<char>, Seq<char>> {
        house_report(self.name_spec(), self.rooms_seq())
    }

    fn create_report(&self) -> (r: Result<String, String>) {
        let mut report = "Отчёт по дому '".to_owned();
        report.append(self.name.as_str());
        report.append("':\n");
        proof {
            assert(report@ =~= house_header(self.name_spec()));
        }
        let n = self.rooms.len();
        let mut i: usize = 0;
        while i < n
            invariant
                i <= n,
                n == self.rooms@.len(),
                self.rooms@ == self.rooms_seq(),
                forall|k: int| 0 <= k < i ==> (#[trigger] self.rooms_seq()[k].report()) is Ok,
                report@ == house_header(self.name_spec()) + room_texts_upto(
                    self.rooms_seq(),
                    i as int,
                ),
            decreases n - i,
        {
            let room = &self.rooms[i];
            let room_report = room.create_report();
            match room_report {
                Ok(t) => {
                    report.append(t.as_str());
                    proof {
                        assert(report@ =~= house_header(self.name_spec()) + room_texts_upto(
                            self.rooms_seq(),
                            i as int + 1,
                        ));
                    }
                },
                Err(e) => {
                    proof {
                        lemma_rooms_report_split(self.rooms_seq(), i as int);
                    }
                    let mut message =
                        "Возникла ошибка при формировании отчёта по дому '".to_owned();
                    message.append(self.name.as_str());
                    message.append("': ");
                    message.append(e.as_str());
                    proof {
                        assert(message@ =~= house_error_text(self.name_spec(), e@));
                    }
                    return Err(message);
                },
            }
            i += 1;
        }
        proof {
            lemma_rooms_report_split(self.rooms_seq(), n as int);
            assert(room_texts_upto(self.rooms_seq(), n as int) + Seq::<char>::empty()
                =~= room_texts_upto(self.rooms_seq(), n as int));
        }
        Ok(report)
    }
}

} // verus!
