use crate::common::report_view;
use vstd::prelude::*;
use vstd::string::StringExecFns;

verus! {

/// A named leaf entity that can report its own status.
///
/// `dyn IDevice` values stand in rooms, so the trait carries the reporting
/// operation itself: the contract is the same as `IReporter`'s, extended
/// with a name.
pub trait IDevice {
    /// What `create_report` returns, as a function of the device alone.
    spec fn report(&self) -> Result<Seq<char>, Seq<char>>;

    /// The device's name.
    spec fn name_spec(&self) -> Seq<char>;

    fn create_report(&self) -> (r: Result<String, String>)
        ensures
            report_view(r) == self.report(),
    ;

    fn get_name(&self) -> (r: &String)
        ensures
            r@ == self.name_spec(),
    ;
}

/// The fixed status text a socket reports.
pub open spec fn socket_report_text(name: Seq<char>) -> Seq<char> {
    "Это умная розетка '"@ + name + "'. Роботает штатно."@
}

/// The fixed status text a thermometer reports.
pub open spec fn thermometer_report_text(name: Seq<char>) -> Seq<char> {
    "Это умный термометр '"@ + name + "'. Роботает штатно."@
}

/// A smart socket: a device whose report is a fixed template around its name.
pub struct SmartSocket {
    name: String,
}

impl SmartSocket {
    pub fn new(name: String) -> (r: Self)
        ensures
            r.name_spec() == name@,
            r.report() == Ok::<Seq<char>, Seq<char>>(socket_report_text(name@)),
    {
        SmartSocket { name }
    }
}

impl IDevice for SmartSocket {
    closed spec fn report(&self) -> Result<Seq<char>, Seq<char>> {
        Ok(socket_report_text(self.name@))
    }

    closed spec fn name_spec(&self) -> Seq<char> {
        self.name@
    }

    fn create_report(&self) -> (r: Result<String, String>) {
        let mut message = "Это умная розетка '".to_owned();
        message.append(self.name.as_str());
        message.append("'. Роботает штатно.");
        proof {
            assert(message@ =~= socket_report_text(self.name@));
        }
        Ok(message)
    }

    fn get_name(&self) -> (r: &String) {
        &self.name
    }
}

/// A smart thermometer: a device whose report is a fixed template around
/// its name.
pub struct SmartThermometer {
    name: String,
}

impl SmartThermometer {
    pub fn new(name: String) -> (r: Self)
        ensures
            r.name_spec() == name@,
            r.report() == Ok::<Seq<char>, Seq<char>>(thermometer_report_text(name@)),
    {
        SmartThermometer { name }
    }
}

impl IDevice for SmartThermometer {
    closed spec fn report(&self) -> Result<Seq<char>, Seq<char>> {
        Ok(thermometer_report_text(self.name@))
    }

    closed spec fn name_spec(&self) -> Seq<char> {
        self.name@
    }

    fn create_report(&self) -> (r: Result<String, String>) {
        let mut message = "Это умный термометр '".to_owned();
        message.append(self.name.as_str());
        message.append("'. Роботает штатно.");
        proof {
            assert(message@ =~= thermometer_report_text(self.name@));
        }
        Ok(message)
    }

    fn get_name(&self) -> (r: &String) {
        &self.name
    }
}

} // verus!
