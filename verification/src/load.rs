//! The decisions of `scry-load`, which puts a Scry ELF executable onto a board: what its command
//! line asks for, which serial port is the board's, and what the loader's answer means.

use vstd::prelude::*;

use crate::loader::{ack_of, Ack};
use crate::text::{
    comma_list, digit_char, join_names, opt_string_view, same_text, strings_view, text,
    text_starts_with,
};

verus! {

/// What the options given so far set, as values.
pub struct LoadSettings {
    pub board_file: Option<Seq<char>>,
    pub elf: Option<Seq<char>>,
    pub check_only: bool,
    pub image_file: Option<Seq<char>>,
    pub port: Option<Seq<char>>,
    pub no_wait: bool,
}

/// What reading the arguments comes to: a request for help, a mistake, or settings.
pub enum LoadScan {
    Help,
    Failed(Seq<char>),
    Finished(LoadSettings),
}

/// No option given.
pub open spec fn no_settings() -> LoadSettings {
    LoadSettings {
        board_file: None,
        elf: None,
        check_only: false,
        image_file: None,
        port: None,
        no_wait: false,
    }
}

/// The message for an option without its value.
pub open spec fn needs_value_message(name: Seq<char>) -> Seq<char> {
    name + " needs a value"@
}

/// Reads the arguments left to right. `--board-file`, `--image` and `--port` take the next
/// argument as their value; `-h` or `--help` asks for help at once; any other argument that
/// starts with `-` is unknown; the first other argument is the ELF, and a second one is a
/// mistake.
pub open spec fn scan_load_args(args: Seq<Seq<char>>, st: LoadSettings) -> LoadScan
    decreases args.len(),
{
    if args.len() == 0 {
        LoadScan::Finished(st)
    } else {
        let arg = args[0];
        if arg == "--board-file"@ || arg == "--image"@ || arg == "--port"@ {
            if args.len() < 2 {
                LoadScan::Failed(needs_value_message(arg))
            } else {
                let value = Some(args[1]);
                let next = if arg == "--board-file"@ {
                    LoadSettings { board_file: value, ..st }
                } else if arg == "--image"@ {
                    LoadSettings { image_file: value, ..st }
                } else {
                    LoadSettings { port: value, ..st }
                };
                scan_load_args(args.skip(2), next)
            }
        } else if arg == "--check"@ {
            scan_load_args(args.drop_first(), LoadSettings { check_only: true, ..st })
        } else if arg == "--no-wait"@ {
            scan_load_args(args.drop_first(), LoadSettings { no_wait: true, ..st })
        } else if arg == "-h"@ || arg == "--help"@ {
            LoadScan::Help
        } else if arg.len() > 0 && arg[0] == '-' {
            LoadScan::Failed("unknown option "@ + arg)
        } else if st.elf is None {
            scan_load_args(args.drop_first(), LoadSettings { elf: Some(arg), ..st })
        } else {
            LoadScan::Failed("unexpected argument "@ + arg)
        }
    }
}

/// What `scry-load` is asked to do.
#[derive(Debug)]
pub struct LoadOptions {
    /// The board profile.
    pub board_file: String,
    /// The program to load.
    pub elf: String,
    /// Only check that the program fits the board, send nothing.
    pub check_only: bool,
    /// Write the flat image to this file instead of sending it.
    pub image_file: Option<String>,
    /// The serial port of the board, when not detected.
    pub port: Option<String>,
    /// Exit once the program is launched, without showing its output.
    pub no_wait: bool,
}

/// What the command line asks for: help, or a run with options.
#[derive(Debug)]
pub enum LoadCommand {
    Help,
    Run(LoadOptions),
}

/// Whether `command` is what the settings read from the arguments describe.
pub open spec fn command_matches(command: LoadCommand, st: LoadSettings) -> bool {
    match command {
        LoadCommand::Help => false,
        LoadCommand::Run(o) => {
            &&& st.board_file == Some(o.board_file@)
            &&& st.elf == Some(o.elf@)
            &&& st.check_only == o.check_only
            &&& st.image_file == opt_string_view(o.image_file)
            &&& st.port == opt_string_view(o.port)
            &&& st.no_wait == o.no_wait
        },
    }
}

/// Whether `r` is what the command line `args` asks for: help as soon as it is asked for, the
/// first mistake, a missing profile or ELF, or the options.
pub open spec fn load_args_result(args: Seq<Seq<char>>, r: Result<LoadCommand, String>) -> bool {
    match scan_load_args(args, no_settings()) {
        LoadScan::Help => r matches Ok(LoadCommand::Help),
        LoadScan::Failed(m) => r matches Err(e) && e@ == m,
        LoadScan::Finished(st) => if st.board_file is None {
            r matches Err(e) && e@ == "no board profile given (--board-file)"@
        } else if st.elf is None {
            r matches Err(e) && e@ == "no ELF file given"@
        } else {
            r matches Ok(c) && command_matches(c, st)
        },
    }
}

/// The settings as they stand while reading.
struct Reading {
    board_file: Option<String>,
    elf: Option<String>,
    check_only: bool,
    image_file: Option<String>,
    port: Option<String>,
    no_wait: bool,
}

impl Reading {
    spec fn settings(&self) -> LoadSettings {
        LoadSettings {
            board_file: opt_string_view(self.board_file),
            elf: opt_string_view(self.elf),
            check_only: self.check_only,
            image_file: opt_string_view(self.image_file),
            port: opt_string_view(self.port),
            no_wait: self.no_wait,
        }
    }
}

/// A copy of `s`.
fn copy_text(s: &String) -> (r: String)
    ensures
        r@ == s@,
{
    String::from_str(s.as_str())
}

/// Reads `scry-load`'s command line (without the program name).
pub fn parse_load_args(args: &Vec<String>) -> (r: Result<LoadCommand, String>)
    ensures
        load_args_result(strings_view(args@), r),
{
    let ghost all = strings_view(args@);
    let mut reading = Reading {
        board_file: None,
        elf: None,
        check_only: false,
        image_file: None,
        port: None,
        no_wait: false,
    };
    let mut i: usize = 0;
    assert(all.skip(0) =~= all);
    while i < args.len()
        invariant
            i <= args.len(),
            all == strings_view(args@),
            scan_load_args(all, no_settings()) == scan_load_args(all.skip(i as int), reading.settings()),
        decreases args.len() - i,
    {
        let arg = args[i].as_str();
        let ghost rest = all.skip(i as int);
        let ghost st = reading.settings();
        assert(rest[0] == arg@);
        proof {
            reveal_strlit("--board-file");
            reveal_strlit("--image");
            reveal_strlit("--port");
            reveal_strlit("--check");
            reveal_strlit("--no-wait");
            reveal_strlit("-h");
            reveal_strlit("--help");
        }
        let takes_value = same_text(arg, "--board-file") || same_text(arg, "--image")
            || same_text(arg, "--port");
        if takes_value {
            if i + 1 >= args.len() {
                let mut message = copy_text(&args[i]);
                message.append(" needs a value");
                return Err(message);
            }
            let value = copy_text(&args[i + 1]);
            assert(rest[1] == value@);
            if same_text(arg, "--board-file") {
                reading.board_file = Some(value);
                assert(reading.settings() == LoadSettings { board_file: Some(rest[1]), ..st });
            } else if same_text(arg, "--image") {
                reading.image_file = Some(value);
                assert(reading.settings() == LoadSettings { image_file: Some(rest[1]), ..st });
            } else {
                reading.port = Some(value);
                assert(reading.settings() == LoadSettings { port: Some(rest[1]), ..st });
            }
            assert(rest.skip(2) =~= all.skip(i + 2));
            assert(scan_load_args(rest, st) == scan_load_args(rest.skip(2), reading.settings()));
            i = i + 2;
        } else if same_text(arg, "--check") {
            reading.check_only = true;
            assert(rest.drop_first() =~= all.skip(i + 1));
            assert(reading.settings() == LoadSettings { check_only: true, ..st });
            assert(scan_load_args(rest, st) == scan_load_args(rest.drop_first(), reading.settings()));
            i = i + 1;
        } else if same_text(arg, "--no-wait") {
            reading.no_wait = true;
            assert(rest.drop_first() =~= all.skip(i + 1));
            assert(reading.settings() == LoadSettings { no_wait: true, ..st });
            assert(scan_load_args(rest, st) == scan_load_args(rest.drop_first(), reading.settings()));
            i = i + 1;
        } else if same_text(arg, "-h") || same_text(arg, "--help") {
            return Ok(LoadCommand::Help);
        } else if text_starts_with(arg, "-") {
            proof {
                reveal_strlit("-");
                assert(arg@.take(1)[0] == arg@[0]);
            }
            let mut message = text("unknown option ");
            message.append(arg);
            return Err(message);
        } else if reading.elf.is_none() {
            proof {
                reveal_strlit("-");
                assert("-"@ =~= seq!['-']);
                if arg@.len() > 0 {
                    assert(arg@.take(1) =~= seq![arg@[0]]);
                    assert(arg@[0] != '-');
                }
            }
            reading.elf = Some(copy_text(&args[i]));
            assert(rest.drop_first() =~= all.skip(i + 1));
            assert(reading.settings() == LoadSettings { elf: Some(arg@), ..st });
            assert(scan_load_args(rest, st) == scan_load_args(rest.drop_first(), reading.settings()));
            i = i + 1;
        } else {
            proof {
                reveal_strlit("-");
                assert("-"@ =~= seq!['-']);
                if arg@.len() > 0 {
                    assert(arg@.take(1) =~= seq![arg@[0]]);
                    assert(arg@[0] != '-');
                }
            }
            assert(st.elf is Some);
            assert(scan_load_args(rest, st) == LoadScan::Failed("unexpected argument "@ + arg@));
            let mut message = text("unexpected argument ");
            message.append(arg);
            return Err(message);
        }
    }
    assert(all.skip(i as int) =~= seq![]);
    let board_file = match reading.board_file {
        Some(b) => b,
        None => return Err(text("no board profile given (--board-file)")),
    };
    let elf = match reading.elf {
        Some(e) => e,
        None => return Err(text("no ELF file given")),
    };
    Ok(
        LoadCommand::Run(
            LoadOptions {
                board_file,
                elf,
                check_only: reading.check_only,
                image_file: reading.image_file,
                port: reading.port,
                no_wait: reading.no_wait,
            },
        ),
    )
}

/// The message for what the loader answered to a download, when it is not a launch: the
/// answer byte is shown as `{:#04x}` shows it.
pub open spec fn ack_failure(reply: Option<u8>) -> Option<Seq<char>> {
    match reply {
        None => Some("no reply from the loader; is it armed? (reset the board)"@),
        Some(byte) => match ack_of(byte) {
            Ack::Launched => None,
            Ack::BadChecksum => Some("the loader rejected the checksum"@),
            Ack::TimedOut => Some("the loader timed out in the middle of the frame"@),
            Ack::Unknown(b) => Some(
                "unexpected reply "@ + seq!['0', 'x', digit_char(b as nat / 16), digit_char(
                    b as nat % 16,
                )] + " from the loader"@,
            ),
        },
    }
}

/// Decides what the loader's answer to a download means: `Ok` when the program was launched,
/// else why the download failed. `reply` is `None` when no answer came in time.
pub fn ack_outcome(reply: Option<u8>) -> (r: Result<(), String>)
    ensures
        match r {
            Ok(()) => ack_failure(reply) is None,
            Err(e) => ack_failure(reply) == Some(e@),
        },
{
    match reply {
        None => Err(text("no reply from the loader; is it armed? (reset the board)")),
        Some(byte) => match Ack::from(byte) {
            Ack::Launched => Ok(()),
            Ack::BadChecksum => Err(text("the loader rejected the checksum")),
            Ack::TimedOut => Err(text("the loader timed out in the middle of the frame")),
            Ack::Unknown(b) => {
                let mut message = text("unexpected reply 0x");
                crate::text::push_digit(&mut message, (b / 16) as u64);
                crate::text::push_digit(&mut message, (b % 16) as u64);
                message.append(" from the loader");
                proof {
                    reveal_strlit("unexpected reply 0x");
                    reveal_strlit("unexpected reply ");
                    assert("unexpected reply 0x"@ =~= "unexpected reply "@ + seq!['0', 'x']);
                }
                Err(message)
            },
        },
    }
}

/// A serial port as the system lists it: its name, whether it is a USB port, and the USB
/// device's manufacturer if it gives one.
#[derive(Debug)]
pub struct PortInfo {
    pub name: String,
    pub usb: bool,
    pub manufacturer: Option<String>,
}

/// A serial port as values.
pub struct PortInfoView {
    pub name: Seq<char>,
    pub usb: bool,
    pub manufacturer: Option<Seq<char>>,
}

impl View for PortInfo {
    type V = PortInfoView;

    open spec fn view(&self) -> PortInfoView {
        PortInfoView {
            name: self.name@,
            usb: self.usb,
            manufacturer: opt_string_view(self.manufacturer),
        }
    }
}

/// `c` in upper case, when it is an ASCII letter.
pub open spec fn ascii_upper(c: char) -> char {
    if 97 <= c as u32 <= 122 {
        ((c as u32) - 32) as char
    } else {
        c
    }
}

/// Whether `s`, in ASCII upper case, contains `FTDI`.
pub open spec fn mentions_ftdi(s: Seq<char>) -> bool {
    exists|i: int|
        0 <= i && i + 4 <= s.len() && ascii_upper(#[trigger] s[i]) == 'F' && ascii_upper(s[i + 1])
            == 'T' && ascii_upper(s[i + 2]) == 'D' && ascii_upper(s[i + 3]) == 'I'
}

/// Whether a port is a USB port of an FTDI device.
pub open spec fn is_ftdi(p: PortInfoView) -> bool {
    p.usb && (p.manufacturer matches Some(m) && mentions_ftdi(m))
}

/// The names of the USB ports, in the order listed.
pub open spec fn usb_names(ports: Seq<PortInfoView>) -> Seq<Seq<char>>
    decreases ports.len(),
{
    if ports.len() == 0 {
        seq![]
    } else if ports.last().usb {
        usb_names(ports.drop_last()).push(ports.last().name)
    } else {
        usb_names(ports.drop_last())
    }
}

/// The names of the FTDI USB ports, in the order listed.
pub open spec fn ftdi_names(ports: Seq<PortInfoView>) -> Seq<Seq<char>>
    decreases ports.len(),
{
    if ports.len() == 0 {
        seq![]
    } else if is_ftdi(ports.last()) {
        ftdi_names(ports.drop_last()).push(ports.last().name)
    } else {
        ftdi_names(ports.drop_last())
    }
}

/// The board's serial port among `ports`: the only FTDI USB port, or else the only USB port.
pub open spec fn port_choice(ports: Seq<PortInfoView>) -> Result<Seq<char>, Seq<char>> {
    let usb = usb_names(ports);
    let ftdi = ftdi_names(ports);
    if ftdi.len() == 1 {
        Ok(ftdi[0])
    } else if ftdi.len() == 0 && usb.len() == 1 {
        Ok(usb[0])
    } else if ftdi.len() == 0 && usb.len() == 0 {
        Err("no USB serial port found; pass --port"@)
    } else {
        Err("several serial ports could be the board ("@ + comma_list(usb) + "); pass --port"@)
    }
}

/// Whether one of the USB ports listed is called `name`.
pub open spec fn lists_usb_port(ports: Seq<PortInfoView>, name: Seq<char>) -> bool {
    exists|i: int| 0 <= i < ports.len() && #[trigger] ports[i].usb && ports[i].name == name
}

proof fn lemma_listed_names(ports: Seq<PortInfoView>)
    ensures
        forall|k: int|
            0 <= k < usb_names(ports).len() ==> lists_usb_port(ports, #[trigger] usb_names(ports)[k]),
        forall|k: int|
            0 <= k < ftdi_names(ports).len() ==> lists_usb_port(ports, #[trigger] ftdi_names(ports)[k]),
        (forall|i: int| 0 <= i < ports.len() ==> !(#[trigger] ports[i]).usb) ==> usb_names(
            ports,
        ).len() == 0 && ftdi_names(ports).len() == 0,
    decreases ports.len(),
{
    if ports.len() > 0 {
        let p = ports.drop_last();
        lemma_listed_names(p);
        let last = ports.len() - 1;
        assert forall|name: Seq<char>| lists_usb_port(p, name) implies lists_usb_port(ports, name) by {
            let i = choose|i: int| 0 <= i < p.len() && #[trigger] p[i].usb && p[i].name == name;
            assert(p[i] == ports[i]);
        }
        assert forall|k: int| 0 <= k < usb_names(ports).len() implies lists_usb_port(
            ports,
            #[trigger] usb_names(ports)[k],
        ) by {
            if k < usb_names(p).len() {
                assert(usb_names(ports)[k] == usb_names(p)[k]);
                assert(lists_usb_port(p, usb_names(p)[k]));
            } else {
                assert(ports[last].usb && ports[last].name == usb_names(ports)[k]);
            }
        }
        assert forall|k: int| 0 <= k < ftdi_names(ports).len() implies lists_usb_port(
            ports,
            #[trigger] ftdi_names(ports)[k],
        ) by {
            if k < ftdi_names(p).len() {
                assert(ftdi_names(ports)[k] == ftdi_names(p)[k]);
                assert(lists_usb_port(p, ftdi_names(p)[k]));
            } else {
                assert(is_ftdi(ports[last]));
                assert(ports[last].usb && ports[last].name == ftdi_names(ports)[k]);
            }
        }
        if forall|i: int| 0 <= i < ports.len() ==> !(#[trigger] ports[i]).usb {
            assert forall|i: int| 0 <= i < p.len() implies !(#[trigger] p[i]).usb by {
                assert(p[i] == ports[i]);
            }
            assert(!ports[last].usb);
        }
    }
}

/// Law: the port chosen for the board is one of the USB ports listed, and without a USB port none
/// is chosen.
pub proof fn law_port_choice_is_a_usb_port(ports: Seq<PortInfoView>)
    ensures
        port_choice(ports) matches Ok(name) ==> lists_usb_port(ports, name),
        (forall|i: int| 0 <= i < ports.len() ==> !(#[trigger] ports[i]).usb) ==> port_choice(
            ports,
        ) is Err,
{
    lemma_listed_names(ports);
    if ftdi_names(ports).len() == 1 {
        assert(lists_usb_port(ports, ftdi_names(ports)[0]));
    } else if ftdi_names(ports).len() == 0 && usb_names(ports).len() == 1 {
        assert(lists_usb_port(ports, usb_names(ports)[0]));
    }
}

/// The ports as values.
pub open spec fn ports_view(ports: Seq<PortInfo>) -> Seq<PortInfoView> {
    ports.map_values(|p: PortInfo| p@)
}

/// Whether `s`, in ASCII upper case, contains `FTDI`.
fn text_mentions_ftdi(s: &str) -> (r: bool)
    ensures
        r == mentions_ftdi(s@),
{
    let n = s.unicode_len();
    if n < 4 {
        return false;
    }
    let mut i: usize = 0;
    while i <= n - 4
        invariant
            n == s@.len(),
            n >= 4,
            i <= n - 3,
            forall|j: int|
                0 <= j < i ==> !(ascii_upper(#[trigger] s@[j]) == 'F' && ascii_upper(s@[j + 1])
                    == 'T' && ascii_upper(s@[j + 2]) == 'D' && ascii_upper(s@[j + 3]) == 'I'),
        decreases n - i,
    {
        let a = upper(s.get_char(i));
        let b = upper(s.get_char(i + 1));
        let c = upper(s.get_char(i + 2));
        let d = upper(s.get_char(i + 3));
        if a == 'F' && b == 'T' && c == 'D' && d == 'I' {
            return true;
        }
        i = i + 1;
    }
    false
}

/// `c` in upper case, when it is an ASCII letter.
fn upper(c: char) -> (r: char)
    ensures
        r == ascii_upper(c),
{
    let code = c as u32;
    if 97 <= code && code <= 122 {
        ((code - 32) as u8) as char
    } else {
        c
    }
}

/// Finds the board's serial port: the only FTDI USB port, or else the only USB port.
pub fn choose_port(ports: &Vec<PortInfo>) -> (r: Result<String, String>)
    ensures
        match r {
            Ok(name) => port_choice(ports_view(ports@)) == Ok::<Seq<char>, Seq<char>>(name@),
            Err(e) => port_choice(ports_view(ports@)) == Err::<Seq<char>, Seq<char>>(e@),
        },
{
    let ghost pv = ports_view(ports@);
    let mut usb: Vec<String> = Vec::new();
    let mut ftdi: Vec<String> = Vec::new();
    let mut i: usize = 0;
    while i < ports.len()
        invariant
            i <= ports.len(),
            pv == ports_view(ports@),
            strings_view(usb@) == usb_names(pv.take(i as int)),
            strings_view(ftdi@) == ftdi_names(pv.take(i as int)),
        decreases ports.len() - i,
    {
        let port = &ports[i];
        proof {
            assert(pv.take(i + 1).drop_last() =~= pv.take(i as int));
            assert(pv.take(i + 1).last() == port@);
        }
        if port.usb {
            usb.push(copy_text(&port.name));
            assert(strings_view(usb@) =~= usb_names(pv.take(i + 1)));
            let is_ftdi = match &port.manufacturer {
                Some(m) => text_mentions_ftdi(m.as_str()),
                None => false,
            };
            if is_ftdi {
                ftdi.push(copy_text(&port.name));
                assert(strings_view(ftdi@) =~= ftdi_names(pv.take(i + 1)));
            } else {
                assert(strings_view(ftdi@) =~= ftdi_names(pv.take(i + 1)));
            }
        } else {
            assert(strings_view(usb@) =~= usb_names(pv.take(i + 1)));
            assert(strings_view(ftdi@) =~= ftdi_names(pv.take(i + 1)));
        }
        i = i + 1;
    }
    assert(pv.take(i as int) =~= pv);
    if ftdi.len() == 1 {
        return Ok(copy_text(&ftdi[0]));
    }
    if ftdi.len() == 0 && usb.len() == 1 {
        return Ok(copy_text(&usb[0]));
    }
    if ftdi.len() == 0 && usb.len() == 0 {
        return Err(text("no USB serial port found; pass --port"));
    }
    let mut message = text("several serial ports could be the board (");
    let list = join_names(&usb);
    message.append(list.as_str());
    message.append("); pass --port");
    Err(message)
}

} // verus!
