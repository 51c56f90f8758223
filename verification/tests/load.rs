use cargo_scry::load::{ack_outcome, choose_port, parse_load_args, LoadCommand, PortInfo};

fn args(list: &[&str]) -> Vec<String> {
    list.iter().map(|arg| (*arg).to_owned()).collect()
}

fn port(name: &str, usb: bool, manufacturer: Option<&str>) -> PortInfo {
    PortInfo {
        name: name.to_owned(),
        usb,
        manufacturer: manufacturer.map(str::to_owned),
    }
}

#[test]
fn load_options_are_read() {
    let command = parse_load_args(&args(&[
        "--board-file",
        "boards/scry5.toml",
        "prog.elf",
        "--port",
        "COM5",
        "--no-wait",
    ]))
    .unwrap();
    match command {
        LoadCommand::Run(options) => {
            assert_eq!(options.board_file, "boards/scry5.toml");
            assert_eq!(options.elf, "prog.elf");
            assert_eq!(options.port.as_deref(), Some("COM5"));
            assert!(options.no_wait);
            assert!(!options.check_only);
            assert_eq!(options.image_file, None);
        }
        LoadCommand::Help => panic!("no help was asked for"),
    }
}

#[test]
fn load_option_mistakes_are_reported() {
    assert_eq!(
        parse_load_args(&args(&["--board-file"])).unwrap_err(),
        "--board-file needs a value"
    );
    assert_eq!(
        parse_load_args(&args(&["--board-file", "b", "-x"])).unwrap_err(),
        "unknown option -x"
    );
    assert_eq!(
        parse_load_args(&args(&["--board-file", "b", "a.elf", "b.elf"])).unwrap_err(),
        "unexpected argument b.elf"
    );
    assert_eq!(
        parse_load_args(&args(&["a.elf"])).unwrap_err(),
        "no board profile given (--board-file)"
    );
    assert_eq!(
        parse_load_args(&args(&["--board-file", "b", "--check"])).unwrap_err(),
        "no ELF file given"
    );
}

#[test]
fn help_is_given_as_soon_as_it_is_asked_for() {
    assert!(matches!(parse_load_args(&args(&["-h", "-x"])), Ok(LoadCommand::Help)));
    assert!(matches!(parse_load_args(&args(&["--help"])), Ok(LoadCommand::Help)));
    assert!(parse_load_args(&args(&["-x", "--help"])).is_err());
    let command = parse_load_args(&args(&["--check", "--image", "out.bin", "--board-file", "b", "p"]));
    match command {
        Ok(LoadCommand::Run(options)) => {
            assert!(options.check_only);
            assert_eq!(options.image_file.as_deref(), Some("out.bin"));
        }
        _ => panic!("expected options"),
    }
}

#[test]
fn the_loader_answer_is_interpreted() {
    assert!(ack_outcome(Some(b'K')).is_ok());
    assert_eq!(ack_outcome(Some(b'E')).unwrap_err(), "the loader rejected the checksum");
    assert_eq!(
        ack_outcome(Some(b'T')).unwrap_err(),
        "the loader timed out in the middle of the frame"
    );
    assert_eq!(
        ack_outcome(Some(0x05)).unwrap_err(),
        "unexpected reply 0x05 from the loader"
    );
    assert_eq!(
        ack_outcome(Some(0x3f)).unwrap_err(),
        "unexpected reply 0x3f from the loader"
    );
    assert_eq!(
        ack_outcome(None).unwrap_err(),
        "no reply from the loader; is it armed? (reset the board)"
    );
}

#[test]
fn the_board_port_is_the_only_ftdi_or_the_only_usb_port() {
    let ports = vec![
        port("/dev/ttyS0", false, None),
        port("/dev/ttyUSB0", true, Some("Future Technology (ftdi)")),
        port("/dev/ttyACM0", true, Some("Arduino")),
    ];
    assert_eq!(choose_port(&ports).unwrap(), "/dev/ttyUSB0");

    let ports = vec![port("/dev/ttyS0", false, None), port("COM5", true, None)];
    assert_eq!(choose_port(&ports).unwrap(), "COM5");

    let ports = vec![port("/dev/ttyS0", false, Some("FTDI"))];
    assert_eq!(
        choose_port(&ports).unwrap_err(),
        "no USB serial port found; pass --port"
    );

    let ports = vec![port("a", true, None), port("b", true, Some("Acme"))];
    assert_eq!(
        choose_port(&ports).unwrap_err(),
        "several serial ports could be the board (a, b); pass --port"
    );

    let ports = vec![port("a", true, Some("FTDI")), port("b", true, Some("ftdi"))];
    assert_eq!(
        choose_port(&ports).unwrap_err(),
        "several serial ports could be the board (a, b); pass --port"
    );
}
