//! An Ultimate 64 / Ultimate-II+ reached over its REST interface: it plays
//! SID files with its own player, so tunes are uploaded instead of written
//! register by register.
use vstd::prelude::*;
use std::sync::Arc;
use std::sync::atomic::{AtomicI32, Ordering};
use crate::utils::network::{first_local, interface_views, is_local_ip_address, spec_in_local_network, string_views};
use crate::utils::sid_file::{is_sid_file, spec_is_sid_file};
use crate::utils::text::{i64_to_string, replace_all, signed_decimal, split_char, str_replace, str_split_char, views_of};
use super::sid_device::{DeviceResponse, SamplingMethod, SidClock, SidDevice};
use super::{ABORTING, ABORT_NO};

verus! {

pub const MIN_WAIT_TIME_BUSY_MILLIS: u64 = 20;

/// Four PAL frames of cycles.
pub const MIN_CYCLES_IN_FIFO: u32 = 78624;

/// Reading the shared abort flag `flag` gave a value that says `aborted`:
/// neither "no abort" nor "aborting".
pub open spec fn read_abort(flag: AtomicI32, aborted: bool) -> bool {
    exists|v: i32|
        #[trigger] call_ensures(AtomicI32::load, (&flag, Ordering::SeqCst), v) && aborted == (v != ABORT_NO && v
            != ABORTING)
}

/// One file of a multipart upload.
pub struct FilePart {
    pub name: String,
    pub filename: String,
    pub data: Vec<u8>,
}

/// How an upload to the device ended.
pub enum HttpOutcome {
    /// A success status.
    Success,
    /// An error status, with the error as text.
    ErrorStatus(String),
    /// No answer.
    Failed,
}

/// The HTTP requests and pauses an Ultimate device needs from its
/// surroundings. Nothing is promised of their outcomes.
pub trait UltimateHttp: Send {
    /// GET `url`: whether a status of success came back, `None` when no
    /// answer came.
    fn get_version(&mut self, url: &str) -> Option<bool>;

    /// POST the `parts` as a multipart form to `url`.
    fn post_files(&mut self, url: &str, parts: Vec<FilePart>) -> HttpOutcome;

    /// Wait `millis` milliseconds.
    fn pause_millis(&mut self, millis: u64);
}

/// The address of the device's REST interface.
pub open spec fn server_url(ip_address: Seq<char>, port: Seq<char>) -> Seq<char> {
    "http://"@ + ip_address + ":"@ + port
}

/// Whether a host lies on the local network, from its resolved addresses
/// and this machine's interfaces.
pub open spec fn host_is_local(resolved_ips: Seq<Seq<char>>, interfaces: Seq<(Seq<char>, Seq<char>)>) -> bool {
    match first_local(resolved_ips) {
        Some(ip) => spec_in_local_network(ip, interfaces),
        None => false,
    }
}

/// The name a tune is uploaded under: the base name up to its first '.',
/// then ".sid".
pub open spec fn upload_name(file_name: Seq<char>) -> Seq<char> {
    split_char(file_name, '.')[0] + ".sid"@
}

pub open spec fn ends_with(s: Seq<char>, suffix: Seq<char>) -> bool {
    s.len() >= suffix.len() && s.skip(s.len() - suffix.len()) == suffix
}

pub struct UltimateDevice<H: UltimateHttp> {
    device_count: i32,
    cycles_in_fifo: u32,
    sid_clock: SidClock,
    last_error: Option<String>,
    abort_type: Arc<AtomicI32>,
    server_url: Option<String>,
    pause_cartridge: Vec<u8>,
    http: H,
}

impl<H: UltimateHttp> UltimateDevice<H> {
    pub closed spec fn device_count_view(&self) -> i32 {
        self.device_count
    }

    pub closed spec fn cycles_in_fifo_view(&self) -> u32 {
        self.cycles_in_fifo
    }

    pub closed spec fn clock_view(&self) -> SidClock {
        self.sid_clock
    }

    pub closed spec fn last_error_view(&self) -> Option<Seq<char>> {
        match self.last_error {
            Some(e) => Some(e@),
            None => None,
        }
    }

    pub closed spec fn server_url_view(&self) -> Option<Seq<char>> {
        match self.server_url {
            Some(u) => Some(u@),
            None => None,
        }
    }

    pub closed spec fn http_view(&self) -> H {
        self.http
    }

    pub closed spec fn pause_cartridge_view(&self) -> Seq<u8> {
        self.pause_cartridge@
    }

    /// What the answer `outcome` to an upload leaves of `before`: nothing
    /// changed on success; otherwise disconnected with the error.
    pub open spec fn answered_upload(&self, before: &Self, outcome: HttpOutcome) -> bool {
        &&& self.server_url_view() == before.server_url_view()
        &&& self.cycles_in_fifo_view() == before.cycles_in_fifo_view()
        &&& match outcome {
            HttpOutcome::Success => {
                &&& self.device_count_view() == before.device_count_view()
                &&& self.clock_view() == before.clock_view()
                &&& self.last_error_view() == before.last_error_view()
            },
            HttpOutcome::ErrorStatus(e) => self.is_reset() && self.last_error_view() == Some(
                "HTTP error with status: "@ + e@,
            ),
            HttpOutcome::Failed => self.is_reset() && self.last_error_view() == Some(
                "Could not send SID file. Connection failed."@,
            ),
        }
    }

    /// What `disconnect` resets: no device, PAL clock.
    pub open spec fn is_reset(&self) -> bool {
        self.device_count_view() == 0 && self.clock_view() == SidClock::Pal
    }

    /// What `test_connection` can do: at most one device, and only with an
    /// address; the clock kept unless the device was reset; the rest kept.
    pub open spec fn tested_from(&self, old: &Self) -> bool {
        &&& 0 <= self.device_count_view() <= 1
        &&& self.device_count_view() == 1 ==> self.server_url_view() is Some
        &&& self.clock_view() == old.clock_view() || self.is_reset()
        &&& self.server_url_view() == old.server_url_view()
        &&& self.last_error_view() == old.last_error_view()
        &&& self.cycles_in_fifo_view() == old.cycles_in_fifo_view()
    }

    /// A device with no address yet. `pause_cartridge` is the cartridge
    /// image that pauses the device's player.
    pub fn new(abort_type: Arc<AtomicI32>, http: H, pause_cartridge: Vec<u8>) -> (r: Self)
        ensures
            r.is_reset(),
            r.cycles_in_fifo_view() == 0,
            r.last_error_view() is None,
            r.server_url_view() is None,
    {
        UltimateDevice {
            device_count: 0,
            cycles_in_fifo: 0,
            sid_clock: SidClock::Pal,
            last_error: None,
            abort_type,
            server_url: None,
            pause_cartridge,
            http,
        }
    }

    /// Connects to the device at `ip_address` and `port`, which must lie on
    /// the local network (`resolved_ips` are the addresses the host name
    /// resolved to, `interfaces` this machine's IPv4 interfaces with their
    /// netmasks).
    pub fn connect(
        &mut self,
        ip_address: &str,
        port: &str,
        resolved_ips: &Vec<String>,
        interfaces: &Vec<(String, String)>,
    ) -> (r: Result<(), String>)
        ensures
            final(self).last_error_view() is None,
            final(self).cycles_in_fifo_view() == old(self).cycles_in_fifo_view(),
            !host_is_local(string_views(resolved_ips@), interface_views(interfaces@)) ==> {
                &&& final(self).is_reset()
                &&& final(self).server_url_view() is None
                &&& r is Err
                &&& r->Err_0@ == if ip_address@.len() == 0 {
                    "No IP address configured for Ultimate device"@
                } else {
                    "IP is not a local IP address."@
                }
            },
            host_is_local(string_views(resolved_ips@), interface_views(interfaces@)) ==> {
                &&& final(self).server_url_view() == Some(server_url(ip_address@, port@))
                &&& 0 <= final(self).device_count_view() <= 1
                &&& final(self).device_count_view() == 0 ==> final(self).is_reset()
                &&& (r is Ok <==> final(self).device_count_view() == 1)
                &&& r is Err ==> r->Err_0@ == "Could not connect to: "@ + server_url(ip_address@, port@)
                    + "."@
            },
            final(self).clock_view() == SidClock::Pal,
            host_is_local(string_views(resolved_ips@), interface_views(interfaces@)) ==> exists|aborted: bool|
                #[trigger] read_abort(old(self).abort_flag(), aborted) && (aborted ==> r is Err) && (!aborted
                    ==> exists|m: &mut H, u: &str, answer: Option<bool>|
                    mut_ref_current(m) == old(self).http_view() && mut_ref_future(m) == final(self).http_view() && u@
                        == server_url(ip_address@, port@) + "/v1/version"@ && #[trigger] call_ensures(
                        H::get_version,
                        (m, u),
                        answer,
                    ) && (r is Ok <==> answer == Some(true))),
    {
        self.disconnect();
        self.last_error = None;
        let mut url = String::from_str("http://");
        url.append(ip_address);
        url.append(":");
        url.append(port);
        if is_local_ip_address(resolved_ips, interfaces) {
            self.server_url = Some(url.clone());
        } else {
            self.server_url = None;
            if ip_address.unicode_len() == 0 {
                return Err(String::from_str("No IP address configured for Ultimate device"));
            } else {
                return Err(String::from_str("IP is not a local IP address."));
            }
        }
        self.test_connection();
        if self.is_connected() {
            Ok(())
        } else {
            let mut message = String::from_str("Could not connect to: ");
            message.append(url.as_str());
            message.append(".");
            Err(message)
        }
    }

    pub fn disconnect(&mut self)
        ensures
            final(self).abort_flag() == old(self).abort_flag(),
            final(self).http_view() == old(self).http_view(),
            final(self).pause_cartridge_view() == old(self).pause_cartridge_view(),
            final(self).is_reset(),
            final(self).server_url_view() == old(self).server_url_view(),
            final(self).last_error_view() == old(self).last_error_view(),
            final(self).cycles_in_fifo_view() == old(self).cycles_in_fifo_view(),
    {
        self.init_to_default();
    }

    fn init_to_default(&mut self)
        ensures
            final(self).abort_flag() == old(self).abort_flag(),
            final(self).http_view() == old(self).http_view(),
            final(self).pause_cartridge_view() == old(self).pause_cartridge_view(),
            final(self).is_reset(),
            final(self).server_url_view() == old(self).server_url_view(),
            final(self).last_error_view() == old(self).last_error_view(),
            final(self).cycles_in_fifo_view() == old(self).cycles_in_fifo_view(),
    {
        self.device_count = 0;
        self.sid_clock = SidClock::Pal;
    }

    fn disconnect_with_error(&mut self, error_message: String)
        ensures
            final(self).http_view() == old(self).http_view(),
            final(self).pause_cartridge_view() == old(self).pause_cartridge_view(),
            final(self).is_reset(),
            final(self).server_url_view() == old(self).server_url_view(),
            final(self).last_error_view() == Some(error_message@),
            final(self).cycles_in_fifo_view() == old(self).cycles_in_fifo_view(),
    {
        self.last_error = Some(error_message);
        self.disconnect();
    }

    pub fn get_last_error(&self) -> (r: Option<String>)
        ensures
            match r {
                Some(e) => self.last_error_view() == Some(e@),
                None => self.last_error_view() is None,
            },
    {
        match &self.last_error {
            Some(e) => Some(e.clone()),
            None => None,
        }
    }

    pub fn is_connected(&self) -> (r: bool)
        ensures
            r == (self.device_count_view() > 0),
    {
        self.device_count > 0
    }

    /// What the answer `answer` to the version request leaves of `before`:
    /// one device on success, reset when the device answered otherwise,
    /// the clock kept when no answer came.
    pub open spec fn version_answered(&self, before: &Self, answer: Option<bool>) -> bool {
        &&& self.device_count_view() == if answer == Some(true) { 1i32 } else { 0i32 }
        &&& self.clock_view() == if answer == Some(false) { SidClock::Pal } else { before.clock_view() }
        &&& self.server_url_view() == before.server_url_view()
        &&& self.last_error_view() == before.last_error_view()
        &&& self.cycles_in_fifo_view() == before.cycles_in_fifo_view()
    }

    /// Takes the device's answer to the version request: connected on a
    /// success status, reset on another status, unchanged without an answer.
    pub fn take_version_answer(&mut self, answer: Option<bool>)
        ensures
            final(self).http_view() == old(self).http_view(),
            final(self).pause_cartridge_view() == old(self).pause_cartridge_view(),
            final(self).server_url_view() == old(self).server_url_view(),
            final(self).last_error_view() == old(self).last_error_view(),
            final(self).cycles_in_fifo_view() == old(self).cycles_in_fifo_view(),
            match answer {
                Some(true) => final(self).device_count_view() == 1 && final(self).clock_view() == old(self).clock_view(),
                Some(false) => final(self).is_reset(),
                None => final(self).device_count_view() == old(self).device_count_view() && final(self).clock_view()
                    == old(self).clock_view(),
            },
    {
        match answer {
            Some(true) => {
                self.device_count = 1;
            },
            Some(false) => {
                self.disconnect();
            },
            None => {},
        }
    }

    /// Asks the device at its address for its version: connected when it
    /// answers with success, reset when it answers otherwise. Nothing is
    /// asked without an address or once the player is aborted.
    pub fn test_connection(&mut self)
        ensures
            final(self).tested_from(&*old(self)),
            final(self).pause_cartridge_view() == old(self).pause_cartridge_view(),
            old(self).server_url_view() is None ==> final(self).device_count_view() == 0 && final(self).http_view()
                == old(self).http_view() && final(self).clock_view() == old(self).clock_view(),
            old(self).server_url_view() is Some ==> exists|aborted: bool|
                #[trigger] read_abort(old(self).abort_flag(), aborted) && (aborted ==> final(self).device_count_view()
                    == 0 && final(self).http_view() == old(self).http_view() && final(self).clock_view() == old(
                    self,
                ).clock_view()) && (!aborted ==> exists|m: &mut H, u: &str, answer: Option<bool>|
                    mut_ref_current(m) == old(self).http_view() && mut_ref_future(m) == final(self).http_view() && u@
                        == old(self).server_url_view().unwrap() + "/v1/version"@ && #[trigger] call_ensures(
                        H::get_version,
                        (m, u),
                        answer,
                    ) && final(self).version_answered(&*old(self), answer)),
    {
        self.device_count = 0;
        let url = match &self.server_url {
            Some(server_url) => Self::version_url(server_url.as_str()),
            None => return,
        };
        let aborted = self.is_aborted();
        assert(read_abort(old(self).abort_flag(), aborted));
        if !aborted {
            let answer = self.http.get_version(url.as_str());
            proof {
                assert(exists|m: &mut H, u: &str|
                    mut_ref_current(m) == old(self).http_view() && mut_ref_future(m) == self.http_view() && u@
                        == old(self).server_url_view().unwrap() + "/v1/version"@ && #[trigger] call_ensures(
                        H::get_version,
                        (m, u),
                        answer,
                    ));
            }
            self.take_version_answer(answer);
            assert(self.version_answered(&*old(self), answer));
        }
    }

    pub fn get_device_count(&self) -> (r: i32)
        ensures
            r == self.device_count_view(),
    {
        self.device_count
    }

    pub fn get_device_info(&mut self, dev_nr: i32) -> (r: String)
        ensures
            r@ == "Ultimate Device"@,
            *final(self) == *old(self),
    {
        String::from_str("Ultimate Device")
    }

    pub fn set_sid_clock(&mut self, sid_clock: SidClock)
        ensures
            final(self).clock_view() == sid_clock,
            final(self).device_count_view() == old(self).device_count_view(),
            final(self).server_url_view() == old(self).server_url_view(),
            final(self).last_error_view() == old(self).last_error_view(),
            final(self).cycles_in_fifo_view() == old(self).cycles_in_fifo_view(),
    {
        self.sid_clock = sid_clock;
    }

    pub fn get_device_clock(&self) -> (r: SidClock)
        ensures
            r == self.clock_view(),
    {
        self.sid_clock
    }

    /// The device plays on its own; a write only waits a little while the
    /// player is far enough ahead.
    pub fn write(&mut self, cycles: u32)
        ensures
            final(self).device_count_view() == old(self).device_count_view(),
            final(self).clock_view() == old(self).clock_view(),
            final(self).server_url_view() == old(self).server_url_view(),
            final(self).last_error_view() == old(self).last_error_view(),
            final(self).cycles_in_fifo_view() == old(self).cycles_in_fifo_view(),
            old(self).cycles_in_fifo_view() > MIN_CYCLES_IN_FIFO ==> exists|m: &mut H|
                mut_ref_current(m) == old(self).http_view() && mut_ref_future(m) == final(self).http_view()
                    && #[trigger] call_ensures(H::pause_millis, (m, MIN_WAIT_TIME_BUSY_MILLIS), ()),
            old(self).cycles_in_fifo_view() <= MIN_CYCLES_IN_FIFO ==> *final(self) == *old(self),
    {
        if self.cycles_in_fifo > MIN_CYCLES_IN_FIFO {
            self.http.pause_millis(MIN_WAIT_TIME_BUSY_MILLIS);
        }
    }

    /// The shared flag that tells the device to stop waiting.
    pub closed spec fn abort_flag(&self) -> AtomicI32 {
        *self.abort_type
    }

    /// The player is asked to stop for good or for a command: the value
    /// read from the shared flag is neither "no abort" nor "aborting".
    pub fn is_aborted(&self) -> (r: bool)
        ensures
            read_abort(self.abort_flag(), r),
    {
        let abort_type = self.abort_type.load(Ordering::SeqCst);
        abort_type != ABORT_NO && abort_type != ABORTING
    }

    /// Uploads a tune to the device's player. `file_name` is the base name
    /// of the tune's file. A SID file goes with its song lengths (`ssl_data`)
    /// and starts sub tune `song_number`; a ".prg" file is run; other files
    /// disconnect with an error.
    pub fn send_sid_file(&mut self, file_name: &str, song_number: i32, sid_data: &[u8], ssl_data: &[u8])
        requires
            old(self).server_url_view() is Some,
            song_number < i32::MAX,
        ensures
            final(self).server_url_view() == old(self).server_url_view(),
            final(self).cycles_in_fifo_view() == old(self).cycles_in_fifo_view(),
            spec_upload(file_name@, song_number as int, sid_data@, ssl_data@) is None ==> final(self).is_reset()
                && final(self).last_error_view() == Some("File type not supported"@),
            spec_upload(file_name@, song_number as int, sid_data@, ssl_data@) matches Some((path, parts)) ==> exists|
                m: &mut H,
                u: &str,
                ps: Vec<FilePart>,
                outcome: HttpOutcome,
            |
                mut_ref_current(m) == old(self).http_view() && mut_ref_future(m) == final(self).http_view() && u@
                    == old(self).server_url_view().unwrap() + path && ps@.map_values(|p: FilePart| part_view(p))
                    == parts && #[trigger] call_ensures(H::post_files, (m, u, ps), outcome)
                    && final(self).answered_upload(&*old(self), outcome),
            final(self).last_error_view() == old(self).last_error_view() || final(self).is_reset(),
    {
        let server = self.url();
        match Self::upload_request(server.as_str(), file_name, song_number, sid_data, ssl_data) {
            Some((url, parts)) => {
                proof {
                    assert(request_view((url, parts)).1 == parts@.map_values(|p: FilePart| part_view(p)));
                }
                self.send_file(url, parts);
            },
            None => self.disconnect_with_error(String::from_str("File type not supported")),
        }
    }

    /// Pauses the device's player by running the pause cartridge.
    pub fn stop_sid(&mut self)
        requires
            old(self).server_url_view() is Some,
        ensures
            final(self).server_url_view() == old(self).server_url_view(),
            final(self).cycles_in_fifo_view() == old(self).cycles_in_fifo_view(),
            final(self).last_error_view() == old(self).last_error_view() || final(self).is_reset(),
            exists|m: &mut H, u: &str, parts: Vec<FilePart>, outcome: HttpOutcome|
                mut_ref_current(m) == old(self).http_view() && mut_ref_future(m) == final(self).http_view()
                    && u@ == old(self).server_url_view().unwrap() + "/v1/runners:run_crt"@
                    && parts@.map_values(|p: FilePart| part_view(p)) == seq![
                    ("crt"@, "acid64_pause.crt"@, old(self).pause_cartridge_view()),
                ] && #[trigger] call_ensures(H::post_files, (m, u, parts), outcome) && final(self).answered_upload(
                    &*old(self),
                    outcome,
                ),
    {
        let server = self.url();
        let (url, parts) = Self::pause_request(server.as_str(), self.pause_cartridge.as_slice());
        self.send_file(url, parts);
    }

    pub fn set_cycles_in_fifo(&mut self, cycles: u32)
        ensures
            final(self).cycles_in_fifo_view() == cycles,
            final(self).device_count_view() == old(self).device_count_view(),
            final(self).clock_view() == old(self).clock_view(),
            final(self).server_url_view() == old(self).server_url_view(),
            final(self).last_error_view() == old(self).last_error_view(),
            final(self).http_view() == old(self).http_view(),
            final(self).pause_cartridge_view() == old(self).pause_cartridge_view(),
    {
        self.cycles_in_fifo = cycles;
    }

    fn url(&self) -> (r: String)
        requires
            self.server_url_view() is Some,
        ensures
            Some(r@) == self.server_url_view(),
    {
        match &self.server_url {
            Some(u) => u.clone(),
            None => String::new(),
        }
    }

    fn send_file(&mut self, url: String, parts: Vec<FilePart>)
        ensures
            final(self).server_url_view() == old(self).server_url_view(),
            final(self).cycles_in_fifo_view() == old(self).cycles_in_fifo_view(),
            final(self).last_error_view() == old(self).last_error_view() || final(self).is_reset(),
            final(self).pause_cartridge_view() == old(self).pause_cartridge_view(),
            exists|m: &mut H, u: &str, outcome: HttpOutcome|
                mut_ref_current(m) == old(self).http_view() && mut_ref_future(m) == final(self).http_view() && u@
                    == url@ && #[trigger] call_ensures(H::post_files, (m, u, parts), outcome)
                    && final(self).answered_upload(&*old(self), outcome),
    {
        let outcome = self.http.post_files(url.as_str(), parts);
        self.handle_response(outcome);
    }

    /// An error status or a failed upload disconnects with its message.
    pub fn handle_response(&mut self, response: HttpOutcome)
        ensures
            final(self).http_view() == old(self).http_view(),
            final(self).pause_cartridge_view() == old(self).pause_cartridge_view(),
            final(self).server_url_view() == old(self).server_url_view(),
            final(self).cycles_in_fifo_view() == old(self).cycles_in_fifo_view(),
            match response {
                HttpOutcome::Success => *final(self) == *old(self),
                HttpOutcome::ErrorStatus(e) => final(self).is_reset() && final(self).last_error_view()
                    == Some("HTTP error with status: "@ + e@),
                HttpOutcome::Failed => final(self).is_reset() && final(self).last_error_view() == Some(
                    "Could not send SID file. Connection failed."@,
                ),
            },
    {
        match response {
            HttpOutcome::Success => {},
            HttpOutcome::ErrorStatus(error) => {
                let mut message = String::from_str("HTTP error with status: ");
                message.append(error.as_str());
                self.disconnect_with_error(message);
            },
            HttpOutcome::Failed => {
                self.disconnect_with_error(String::from_str("Could not send SID file. Connection failed."));
            },
        }
    }

    /// The name of the song length file uploaded with `sid_filename`.
    pub fn get_ssl_filename(sid_filename: &str) -> (r: String)
        ensures
            r@ == replace_all(sid_filename@, ".sid"@, ".ssl"@),
    {
        proof {
            reveal_strlit(".sid");
        }
        str_replace(sid_filename, ".sid", ".ssl")
    }
}

/// What an upload names its part, its file and its data.
pub open spec fn part_view(p: FilePart) -> (Seq<char>, Seq<char>, Seq<u8>) {
    (p.name@, p.filename@, p.data@)
}

pub open spec fn request_view(r: (String, Vec<FilePart>)) -> (Seq<char>, Seq<(Seq<char>, Seq<char>, Seq<u8>)>) {
    (r.0@, r.1@.map_values(|p: FilePart| part_view(p)))
}

/// The upload of a tune: URL below the device's address (without it) and
/// parts. A SID file goes to the SID player with its song lengths and the
/// sub tune counted from 1; a ".prg" file is run; nothing for other files.
pub open spec fn spec_upload(file_name: Seq<char>, song_number: int, sid_data: Seq<u8>, ssl_data: Seq<u8>) -> Option<(Seq<char>, Seq<(Seq<char>, Seq<char>, Seq<u8>)>)> {
    if spec_is_sid_file(sid_data) {
        let name = upload_name(file_name);
        Some(("/v1/runners:sidplay?songnr="@ + signed_decimal(song_number + 1), seq![("ssl"@, replace_all(name, ".sid"@, ".ssl"@), ssl_data), ("sid"@, name, sid_data)]))
    } else if ends_with(file_name, ".prg"@) {
        Some(("/v1/runners:run_prg"@, seq![("prg"@, file_name, sid_data)]))
    } else {
        None
    }
}

impl<H: UltimateHttp> UltimateDevice<H> {
    /// The URL that asks the device at `server_url` for its version.
    pub fn version_url(server_url: &str) -> (r: String)
        ensures
            r@ == server_url@ + "/v1/version"@,
    {
        let mut url = String::from_str(server_url);
        url.append("/v1/version");
        url
    }

    /// The request that uploads a tune to the device at `server_url`.
    pub fn upload_request(server_url: &str, file_name: &str, song_number: i32, sid_data: &[u8], ssl_data: &[u8]) -> (r: Option<(String, Vec<FilePart>)>)
        requires
            song_number < i32::MAX,
        ensures
            match r {
                Some(req) => spec_upload(file_name@, song_number as int, sid_data@, ssl_data@) is Some
                    && request_view(req) == (
                    server_url@ + spec_upload(file_name@, song_number as int, sid_data@, ssl_data@).unwrap().0,
                    spec_upload(file_name@, song_number as int, sid_data@, ssl_data@).unwrap().1,
                ),
                None => spec_upload(file_name@, song_number as int, sid_data@, ssl_data@) is None,
            },
    {
        if is_sid_file(sid_data) {
            let pieces = str_split_char(file_name, '.');
            proof {
                assert(split_char(file_name@, '.').len() > 0);
                assert(views_of(pieces@)[0] == pieces@[0]@);
            }
            let mut sid_name = String::from_str(pieces[0]);
            sid_name.append(".sid");
            let ssl_name = Self::get_ssl_filename(sid_name.as_str());
            let sid_part = FilePart { name: String::from_str("sid"), filename: sid_name, data: slice_to_vec(sid_data) };
            let ssl_part = FilePart { name: String::from_str("ssl"), filename: ssl_name, data: slice_to_vec(ssl_data) };
            let mut parts: Vec<FilePart> = Vec::new();
            parts.push(ssl_part);
            parts.push(sid_part);
            let mut url = String::from_str(server_url);
            url.append("/v1/runners:sidplay?songnr=");
            let number = i64_to_string(song_number as i64 + 1);
            url.append(number.as_str());
            let r = (url, parts);
            proof {
                assert(request_view(r).1 =~= seq![("ssl"@, replace_all(upload_name(file_name@), ".sid"@, ".ssl"@), ssl_data@), ("sid"@, upload_name(file_name@), sid_data@)]);
            }
            Some(r)
        } else if str_ends_with(file_name, ".prg") {
            let mut parts: Vec<FilePart> = Vec::new();
            parts.push(FilePart { name: String::from_str("prg"), filename: String::from_str(file_name), data: slice_to_vec(sid_data) });
            let mut url = String::from_str(server_url);
            url.append("/v1/runners:run_prg");
            let r = (url, parts);
            proof {
                assert(request_view(r).1 =~= seq![("prg"@, file_name@, sid_data@)]);
            }
            Some(r)
        } else {
            None
        }
    }

    /// The request that runs the pause cartridge on the device at `server_url`.
    pub fn pause_request(server_url: &str, pause_cartridge: &[u8]) -> (r: (String, Vec<FilePart>))
        ensures
            request_view(r) == (server_url@ + "/v1/runners:run_crt"@, seq![("crt"@, "acid64_pause.crt"@, pause_cartridge@)]),
    {
        let mut parts: Vec<FilePart> = Vec::new();
        parts.push(FilePart { name: String::from_str("crt"), filename: String::from_str("acid64_pause.crt"), data: slice_to_vec(pause_cartridge) });
        let mut url = String::from_str(server_url);
        url.append("/v1/runners:run_crt");
        let r = (url, parts);
        proof {
            assert(request_view(r).1 =~= seq![("crt"@, "acid64_pause.crt"@, pause_cartridge@)]);
        }
        r
    }
}

fn slice_to_vec(data: &[u8]) -> (r: Vec<u8>)
    ensures
        r@ == data@,
{
    let mut r: Vec<u8> = Vec::new();
    let mut i: usize = 0;
    while i < data.len()
        invariant
            i <= data.len(),
            r@ == data@.take(i as int),
        decreases data.len() - i,
    {
        r.push(data[i]);
        proof {
            assert(data@.take(i + 1) =~= data@.take(i as int).push(data@[i as int]));
        }
        i = i + 1;
    }
    proof {
        assert(data@.take(data.len() as int) =~= data@);
    }
    r
}

fn str_ends_with(s: &str, suffix: &str) -> (r: bool)
    ensures
        r == ends_with(s@, suffix@),
{
    let n = s.unicode_len();
    let m = suffix.unicode_len();
    if n < m {
        return false;
    }
    let tail = s.substring_char(n - m, n);
    proof {
        assert(tail@ =~= s@.skip(n - m));
    }
    let mut i: usize = 0;
    while i < m
        invariant
            i <= m,
            m == suffix@.len(),
            tail@.len() == m,
            m <= n,
            n == s@.len(),
            tail@ == s@.skip(n - m),
            forall|j: int| 0 <= j < i ==> tail@[j] == suffix@[j],
        decreases m - i,
    {
        if tail.get_char(i) != suffix.get_char(i) {
            proof {
                assert(s@.skip(n - m)[i as int] != suffix@[i as int]);
            }
            return false;
        }
        i = i + 1;
    }
    proof {
        assert(tail@ =~= suffix@);
    }
    true
}

/// The Ultimate device seen as a SID device. It plays uploaded tunes
/// itself, so most register-level calls do nothing.
pub struct UltimateDeviceFacade<H: UltimateHttp> {
    pub us_device: UltimateDevice<H>,
}

impl<H: UltimateHttp> UltimateDeviceFacade<H> {
    /// The device plays tunes with its own player.
    pub fn has_remote_sidplayer(&mut self, dev_nr: i32) -> (r: bool)
        ensures
            r,
    {
        true
    }

    /// Uploads a tune; ignored while the device has no address.
    pub fn send_sid(&mut self, dev_nr: i32, file_name: &str, song_number: i32, sid_data: &[u8], ssl_data: &[u8])
        requires
            song_number < i32::MAX,
        ensures
            old(self).us_device.server_url_view() is None ==> *final(self) == *old(self),
            old(self).us_device.server_url_view() is Some && spec_upload(file_name@, song_number as int, sid_data@, ssl_data@) is None
                ==> final(self).us_device.is_reset() && final(self).us_device.last_error_view() == Some("File type not supported"@),
            old(self).us_device.server_url_view() is Some ==> (spec_upload(file_name@, song_number as int, sid_data@, ssl_data@) matches Some((path, parts))
                ==> exists|m: &mut H, u: &str, ps: Vec<FilePart>, outcome: HttpOutcome|
                mut_ref_current(m) == old(self).us_device.http_view() && mut_ref_future(m) == final(self).us_device.http_view()
                    && u@ == old(self).us_device.server_url_view().unwrap() + path && ps@.map_values(|p: FilePart| part_view(p))
                    == parts && #[trigger] call_ensures(H::post_files, (m, u, ps), outcome)
                    && final(self).us_device.answered_upload(&old(self).us_device, outcome)),
            final(self).us_device.last_error_view() == old(self).us_device.last_error_view() || final(self).us_device.is_reset(),
    {
        if self.us_device.has_address() {
            self.us_device.send_sid_file(file_name, song_number, sid_data, ssl_data);
        }
    }

    /// Pauses the device's player; ignored while it has no address.
    pub fn stop_sid(&mut self, dev_nr: i32)
        ensures
            old(self).us_device.server_url_view() is None ==> *final(self) == *old(self),
            old(self).us_device.server_url_view() is Some ==> exists|
                m: &mut H,
                u: &str,
                parts: Vec<FilePart>,
                outcome: HttpOutcome,
            |
                mut_ref_current(m) == old(self).us_device.http_view() && mut_ref_future(m) == final(self).us_device.http_view() && u@ == old(self).us_device.server_url_view().unwrap()
                    + "/v1/runners:run_crt"@ && parts@.map_values(|p: FilePart| part_view(p)) == seq![
                    ("crt"@, "acid64_pause.crt"@, old(self).us_device.pause_cartridge_view()),
                ] && #[trigger] call_ensures(H::post_files, (m, u, parts), outcome) && final(self).us_device.answered_upload(&old(self).us_device, outcome),
            final(self).us_device.last_error_view() == old(self).us_device.last_error_view() || final(self).us_device.is_reset(),
    {
        if self.us_device.has_address() {
            self.us_device.stop_sid();
        }
    }

    pub fn set_cycles_in_fifo(&mut self, dev_nr: i32, cycles: u32)
        ensures
            final(self).us_device.cycles_in_fifo_view() == cycles,
            final(self).us_device.device_count_view() == old(self).us_device.device_count_view(),
            final(self).us_device.clock_view() == old(self).us_device.clock_view(),
            final(self).us_device.server_url_view() == old(self).us_device.server_url_view(),
            final(self).us_device.last_error_view() == old(self).us_device.last_error_view(),
            final(self).us_device.http_view() == old(self).us_device.http_view(),
            final(self).us_device.pause_cartridge_view() == old(self).us_device.pause_cartridge_view(),
    {
        self.us_device.set_cycles_in_fifo(cycles);
    }
}

impl<H: UltimateHttp> UltimateDevice<H> {
    pub fn has_address(&self) -> (r: bool)
        ensures
            r == self.server_url_view() is Some,
    {
        self.server_url.is_some()
    }
}

impl<H: UltimateHttp> SidDevice for UltimateDeviceFacade<H> {
    fn disconnect(&mut self, dev_nr: i32)
        ensures
            final(self).us_device.is_reset(),
            final(self).us_device.server_url_view() == old(self).us_device.server_url_view(),
    {
        self.us_device.disconnect();
    }

    fn is_connected(&mut self, dev_nr: i32) -> (r: bool)
        ensures
            r == (old(self).us_device.device_count_view() > 0),
    {
        self.us_device.is_connected()
    }

    fn get_last_error(&mut self, dev_nr: i32) -> (r: Option<String>)
        ensures
            match r {
                Some(e) => old(self).us_device.last_error_view() == Some(e@),
                None => old(self).us_device.last_error_view() is None,
            },
    {
        self.us_device.get_last_error()
    }

    fn test_connection(&mut self, dev_nr: i32)
        ensures
            final(self).us_device.tested_from(&old(self).us_device),
            old(self).us_device.server_url_view() is None ==> final(self).us_device.device_count_view() == 0,
    {
        self.us_device.test_connection();
    }

    fn can_pair_devices(&mut self, dev1: i32, dev2: i32) -> (r: bool)
        ensures
            r,
    {
        true
    }

    fn get_device_count(&mut self, dev_nr: i32) -> (r: i32)
        ensures
            r == old(self).us_device.device_count_view(),
    {
        self.us_device.get_device_count()
    }

    fn get_device_info(&mut self, dev_nr: i32) -> (r: String)
        ensures
            r@ == "Ultimate Device"@,
    {
        self.us_device.get_device_info(dev_nr)
    }

    fn set_sid_count(&mut self, dev_nr: i32, sid_count: i32) {
    }

    fn set_sid_position(&mut self, dev_nr: i32, sid_position: i8) {
    }

    fn set_sid_model(&mut self, dev_nr: i32, sid_socket: i32) {
    }

    fn set_sid_clock(&mut self, dev_nr: i32, sid_clock: SidClock)
        ensures
            final(self).us_device.clock_view() == sid_clock,
    {
        self.us_device.set_sid_clock(sid_clock);
    }

    fn set_sampling_method(&mut self, dev_nr: i32, sampling_method: SamplingMethod) {
    }

    fn set_sid_header(&mut self, dev_nr: i32, sid_header: Vec<u8>) {
    }

    fn set_fade_in(&mut self, dev_nr: i32, time_millis: u32) {
    }

    fn set_fade_out(&mut self, dev_nr: i32, time_millis: u32) {
    }

    fn silent_all_sids(&mut self, dev_nr: i32, write_volume: bool) {
    }

    fn silent_sid(&mut self, dev_nr: i32, write_volume: bool) {
    }

    fn device_reset(&mut self, dev_nr: i32) {
    }

    fn reset_all_sids(&mut self, dev_nr: i32) {
    }

    fn reset_sid(&mut self, dev_nr: i32) {
    }

    fn reset_all_buffers(&mut self, dev_nr: i32) {
    }

    fn enable_turbo_mode(&mut self, dev_nr: i32) {
    }

    fn disable_turbo_mode(&mut self, dev_nr: i32) {
    }

    fn dummy_write(&mut self, dev_nr: i32, cycles_input: u32) {
    }

    fn write(&mut self, dev_nr: i32, cycles_input: u32, reg: u8, data: u8)
        ensures
            final(self).us_device.device_count_view() == old(self).us_device.device_count_view(),
            final(self).us_device.clock_view() == old(self).us_device.clock_view(),
            final(self).us_device.server_url_view() == old(self).us_device.server_url_view(),
            final(self).us_device.last_error_view() == old(self).us_device.last_error_view(),
            final(self).us_device.cycles_in_fifo_view() == old(self).us_device.cycles_in_fifo_view(),
            old(self).us_device.cycles_in_fifo_view() > MIN_CYCLES_IN_FIFO ==> exists|m: &mut H|
                mut_ref_current(m) == old(self).us_device.http_view() && mut_ref_future(m) == final(self).us_device.http_view() && #[trigger] call_ensures(H::pause_millis, (m, MIN_WAIT_TIME_BUSY_MILLIS), ()),
            old(self).us_device.cycles_in_fifo_view() <= MIN_CYCLES_IN_FIFO ==> *final(self) == *old(self),
    {
        self.us_device.write(cycles_input);
    }

    fn try_write(&mut self, dev_nr: i32, cycles_input: u32, reg: u8, data: u8) -> (r: DeviceResponse)
        ensures
            r is Accepted,
            final(self).us_device.device_count_view() == old(self).us_device.device_count_view(),
            final(self).us_device.clock_view() == old(self).us_device.clock_view(),
            final(self).us_device.server_url_view() == old(self).us_device.server_url_view(),
            final(self).us_device.last_error_view() == old(self).us_device.last_error_view(),
            final(self).us_device.cycles_in_fifo_view() == old(self).us_device.cycles_in_fifo_view(),
            old(self).us_device.cycles_in_fifo_view() > MIN_CYCLES_IN_FIFO ==> exists|m: &mut H|
                mut_ref_current(m) == old(self).us_device.http_view() && mut_ref_future(m) == final(self).us_device.http_view() && #[trigger] call_ensures(H::pause_millis, (m, MIN_WAIT_TIME_BUSY_MILLIS), ()),
            old(self).us_device.cycles_in_fifo_view() <= MIN_CYCLES_IN_FIFO ==> *final(self) == *old(self),
    {
        self.us_device.write(cycles_input);
        DeviceResponse::Accepted
    }

    fn retry_write(&mut self, dev_nr: i32) -> (r: DeviceResponse)
        ensures
            r is Accepted,
    {
        DeviceResponse::Accepted
    }

    fn force_flush(&mut self, dev_nr: i32) {
    }

    fn set_native_device_clock(&mut self, enabled: bool) {
    }

    fn get_device_clock(&mut self, dev_nr: i32) -> (r: SidClock)
        ensures
            r == old(self).us_device.clock_view(),
    {
        self.us_device.get_device_clock()
    }
}

} // verus!
