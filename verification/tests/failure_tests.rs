use smart_house::common::IReporter;
use smart_house::devices::{IDevice, SmartSocket};
use smart_house::house::SmartHouse;
use smart_house::rooms::{IRoom, OwningRoom};

struct BrokenDevice {
    name: String,
}

impl IDevice for BrokenDevice {
    // Ghost trait items; they exist only for verification and are never
    // called at run time.
    fn report(&self) -> Result<vstd::seq::Seq<char>, vstd::seq::Seq<char>> {
        panic!()
    }

    fn name_spec(&self) -> vstd::seq::Seq<char> {
        panic!()
    }

    fn create_report(&self) -> Result<String, String> {
        Err(String::from("датчик не отвечает"))
    }

    fn get_name(&self) -> &String {
        &self.name
    }
}

#[test]
fn failing_device_report_propagates_to_room_and_house() {
    let working = SmartSocket::new(String::from("розетка"));
    let broken = BrokenDevice {
        name: String::from("сломанный датчик"),
    };
    let devices: Vec<&dyn IDevice> = vec![&working, &broken];
    let room = OwningRoom::new(String::from("Зал"), devices).unwrap();
    let rooms: Vec<&dyn IRoom> = vec![&room];
    let house = SmartHouse::new(String::from("Дом"), rooms).unwrap();

    let room_err = room.create_report().unwrap_err();
    assert!(room_err.contains("сломанный датчик"));
    assert!(room_err.contains("Зал"));
    assert_eq!(
        room_err,
        "Возникла ошибка при формировании отчёта с устройством 'сломанный датчик' \
         в комнате 'Зал': датчик не отвечает"
    );

    let house_err = house.create_report().unwrap_err();
    assert!(house_err.contains("Зал"));
    assert!(house_err.contains(&room_err));
    assert_eq!(
        house_err,
        format!(
            "Возникла ошибка при формировании отчёта по дому 'Дом': {}",
            room_err
        )
    );
}

#[test]
fn failing_device_does_not_block_construction_or_listing() {
    let broken = BrokenDevice {
        name: String::from("сломанный датчик"),
    };
    let devices: Vec<&dyn IDevice> = vec![&broken];
    let room = OwningRoom::new(String::from("Кладовка"), devices).unwrap();
    assert_eq!(room.get_devices_names(), vec!["сломанный датчик"]);
}
