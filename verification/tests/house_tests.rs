use smart_house::common::IReporter;
use smart_house::devices::{IDevice, SmartSocket, SmartThermometer};
use smart_house::house::SmartHouse;
use smart_house::rooms::{BorrowingRoom, IRoom, OwningRoom};

#[test]
fn construction_succeeds_and_keeps_order() {
    let socket = SmartSocket::new(String::from("розетка"));
    let thermometer = SmartThermometer::new(String::from("термометр"));
    let devices: Vec<&dyn IDevice> = vec![&socket, &thermometer];

    let room = OwningRoom::new(String::from("Зал"), devices).unwrap();
    assert_eq!(room.get_name(), "Зал");
    let names = room.get_devices_names();
    assert_eq!(names, vec!["розетка", "термометр"]);

    let hall_devices: Vec<&dyn IDevice> = vec![&socket];
    let hall = OwningRoom::new(String::from("Спальня"), hall_devices).unwrap();
    let rooms: Vec<&dyn IRoom> = vec![&room, &hall];
    let house = SmartHouse::new(String::from("Дом"), rooms).unwrap();
    assert_eq!(house.get_name(), "Дом");
    assert_eq!(house.get_room_names(), vec!["Зал", "Спальня"]);
}

#[test]
fn duplicate_device_names_fail_construction() {
    let one = SmartSocket::new(String::from("розетка"));
    let two = SmartSocket::new(String::from("розетка"));
    let devices: Vec<&dyn IDevice> = vec![&one, &two];

    let err = match OwningRoom::new(String::from("Зал"), devices) {
        Ok(_) => panic!("duplicate device names must fail construction"),
        Err(e) => e,
    };
    assert_eq!(err, "Устройства в комнате имеют неуникальные названия");

    let borrowed: Vec<&dyn IDevice> = vec![&one, &two];
    let err = match BorrowingRoom::new(String::from("Зал"), &borrowed) {
        Ok(_) => panic!("duplicate device names must fail construction"),
        Err(e) => e,
    };
    assert_eq!(err, "Устройства в комнате имеют неуникальные названия");
}

#[test]
fn duplicate_room_names_fail_construction() {
    let socket = SmartSocket::new(String::from("розетка"));
    let thermometer = SmartThermometer::new(String::from("термометр"));
    let first_devices: Vec<&dyn IDevice> = vec![&socket];
    let second_devices: Vec<&dyn IDevice> = vec![&thermometer];

    let first = OwningRoom::new(String::from("Зал"), first_devices).unwrap();
    let second = OwningRoom::new(String::from("Зал"), second_devices).unwrap();
    let rooms: Vec<&dyn IRoom> = vec![&first, &second];

    let err = match SmartHouse::new(String::from("Дом"), rooms) {
        Ok(_) => panic!("duplicate room names must fail construction"),
        Err(e) => e,
    };
    assert_eq!(err, "Комнаты в доме имеют неуникальные названия");
}

#[test]
fn device_reports_are_fixed_templates() {
    let socket = SmartSocket::new(String::from("розетка"));
    assert_eq!(
        socket.create_report().unwrap(),
        "Это умная розетка 'розетка'. Роботает штатно."
    );
    assert_eq!(socket.get_name(), "розетка");

    let thermometer = SmartThermometer::new(String::from("термометр"));
    assert_eq!(
        thermometer.create_report().unwrap(),
        "Это умный термометр 'термометр'. Роботает штатно."
    );
    assert_eq!(thermometer.get_name(), "термометр");
}

#[test]
fn lookup_finds_existing_room_and_names_missing_one() {
    let socket = SmartSocket::new(String::from("розетка для аквариума"));
    let thermometer = SmartThermometer::new(String::from("термометр для аквариума"));
    let kitchen_devices: Vec<&dyn IDevice> = vec![&socket, &thermometer];
    let kitchen = OwningRoom::new(String::from("Кухня"), kitchen_devices).unwrap();
    let rooms: Vec<&dyn IRoom> = vec![&kitchen];
    let house = SmartHouse::new(String::from("Дом"), rooms).unwrap();

    let names = house.get_room_devices_names("Кухня").unwrap();
    assert_eq!(
        names,
        vec!["розетка для аквариума", "термометр для аквариума"]
    );

    let err = house.get_room_devices_names("Чулан").unwrap_err();
    assert_eq!(err, "В доме нет комнаты с названием 'Чулан'");
}

#[test]
fn report_is_idempotent() {
    let socket = SmartSocket::new(String::from("розетка"));
    let devices: Vec<&dyn IDevice> = vec![&socket];
    let room = OwningRoom::new(String::from("Зал"), devices).unwrap();
    let rooms: Vec<&dyn IRoom> = vec![&room];
    let house = SmartHouse::new(String::from("Дом, милый дом"), rooms).unwrap();

    let first = house.create_report().unwrap();
    let second = house.create_report().unwrap();
    assert_eq!(first, second);

    assert_eq!(room.create_report().unwrap(), room.create_report().unwrap());
    assert_eq!(
        socket.create_report().unwrap(),
        socket.create_report().unwrap()
    );
}

#[test]
fn both_containment_variants_behave_identically() {
    let socket = SmartSocket::new(String::from("розетка"));
    let thermometer = SmartThermometer::new(String::from("термометр"));
    let owned: Vec<&dyn IDevice> = vec![&socket, &thermometer];
    let borrowed: Vec<&dyn IDevice> = vec![&socket, &thermometer];

    let owning = OwningRoom::new(String::from("Зал"), owned).unwrap();
    let borrowing = BorrowingRoom::new(String::from("Зал"), &borrowed).unwrap();

    assert_eq!(owning.get_devices_names(), borrowing.get_devices_names());
    assert_eq!(owning.create_report(), borrowing.create_report());
    assert_eq!(owning.get_name(), borrowing.get_name());
}

#[test]
fn full_scenario_report_lists_every_room_and_device_once() {
    let tv_socket = SmartSocket::new(String::from("розетка для телевизора"));
    let aquarium_socket = SmartSocket::new(String::from("розетка для аквариума"));
    let aquarium_thermometer = SmartThermometer::new(String::from("термометр для аквариума"));
    let still_thermometer =
        SmartThermometer::new(String::from("термометр для самогонного аппарата"));

    let hall_devices: Vec<&dyn IDevice> = vec![&tv_socket];
    let kitchen_devices: Vec<&dyn IDevice> = vec![&aquarium_socket, &aquarium_thermometer];
    let storage_devices: Vec<&dyn IDevice> = vec![&still_thermometer];

    let hall = OwningRoom::new(String::from("Зал"), hall_devices).unwrap();
    let kitchen = BorrowingRoom::new(String::from("Кухня"), &kitchen_devices).unwrap();
    let storage = BorrowingRoom::new(String::from("Кладовка"), &storage_devices).unwrap();

    let rooms: Vec<&dyn IRoom> = vec![&hall, &kitchen, &storage];
    let house = SmartHouse::new(String::from("Дом, милый дом"), rooms).unwrap();

    let report = house.create_report().unwrap();
    let expected = "Отчёт по дому 'Дом, милый дом':\n \
         * комната 'Зал':\n   \
         - Это умная розетка 'розетка для телевизора'. Роботает штатно.\n \
         * комната 'Кухня':\n   \
         - Это умная розетка 'розетка для аквариума'. Роботает штатно.\n   \
         - Это умный термометр 'термометр для аквариума'. Роботает штатно.\n \
         * комната 'Кладовка':\n   \
         - Это умный термометр 'термометр для самогонного аппарата'. Роботает штатно.\n";
    assert_eq!(report, expected);

    for header in [
        " * комната 'Зал':",
        " * комната 'Кухня':",
        " * комната 'Кладовка':",
    ] {
        assert_eq!(report.matches(header).count(), 1);
    }
    for device in [
        "розетка для телевизора",
        "розетка для аквариума",
        "термометр для аквариума",
        "термометр для самогонного аппарата",
    ] {
        assert_eq!(report.matches(device).count(), 1);
    }
}
