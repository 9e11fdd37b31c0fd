//! The keyboard interface: what a keyboard is, its settings, and raw commands.
//!
//! The other operations of [`KeyboardInterface`] stand with their subject: lights,
//! triggers, key bindings, firmware patches.

use crate::bits::{double_word, high_byte, le16, le32, le_bytes, low_byte, sub_bytes, word};
use crate::error::{invalid, unexpected, unsupported, ErrorView, KeyboardError};
use crate::exchange::{asked, first, seen, send_one, sent, Answer, Reply, ReplyView, Step, StepView};
use crate::protocol::{
    raw, ChecksumType, CommandTable, Delivery, PollingRate, Profile, Request, RequestView,
};
use crate::settings::{
    BatteryInfo, FeatureList, FirmwareVersion, KeyboardOptions, Precision, PrecisionThresholds,
    SleepTimeSettings,
};
use crate::text::{dec, dec_string, hex2_upper, hex4_upper, push_dec, push_hex2_upper, push_hex4_upper};
use vstd::prelude::*;

verus! {

/// Frame offset of the polling-rate code: `[cmd, 0, code, ...]`. The byte directly after
/// the command is reserved and stays zero.
pub const POLLING_RATE_FRAME_OFFSET: usize = 2;

/// Longest debounce time in milliseconds.
pub const DEBOUNCE_MAX_MS: u8 = 50;

/// What the transport knows of the device at its other end.
#[derive(Debug, Clone, PartialEq, Eq)]
pub struct DeviceInfo {
    pub vid: u16,
    pub pid: u16,
    pub product_name: Option<String>,
    pub wireless: bool,
    pub dongle: bool,
}

/// A keyboard, whatever transport it hangs on.
///
/// Its operations are functions of the replies that are in; see
/// [`exchange`](crate::exchange).
pub struct KeyboardInterface {
    pub device: DeviceInfo,
    pub key_count: u8,
    pub has_magnetism: bool,
    /// Key names indexed by matrix position. Empty means no physical key there.
    pub matrix_key_names: Vec<String>,
    /// Factory keycode per matrix position. Empty when unknown.
    pub matrix_defaults: Vec<u8>,
    /// Matrix positions that are no magnetic switches (GPIO, encoder).
    pub non_analog_positions: Vec<u8>,
    /// Polling rates that this model accepts. Empty means unknown, and no restriction.
    pub polling_rates: Vec<u16>,
    /// Profile that every keymatrix and Fn read and write operates on.
    pub active_profile: Profile,
    /// Command bytes of the protocol family.
    pub commands: CommandTable,
    /// Codes of the polling rates.
    pub rate_codes: Vec<PollingRate>,
}

/// A query without payload.
pub open spec fn query(cmd: u8) -> RequestView {
    raw(cmd, Seq::empty(), ChecksumType::Bit7, Delivery::Query)
}

/// A command that is only sent.
pub open spec fn command(cmd: u8, data: Seq<u8>) -> RequestView {
    raw(cmd, data, ChecksumType::Bit7, Delivery::Send)
}

/// A query without payload.
pub fn query_request(cmd: u8) -> (r: Request)
    ensures
        r@ == query(cmd),
{
    let data: Vec<u8> = Vec::new();
    assert(data@ =~= Seq::<u8>::empty());
    Request::frame(cmd, data, ChecksumType::Bit7, Delivery::Query)
}

/// A command that is only sent.
pub fn command_request(cmd: u8, data: Vec<u8>) -> (r: Request)
    ensures
        r@ == command(cmd, data@),
{
    Request::frame(cmd, data, ChecksumType::Bit7, Delivery::Send)
}

/// The device ID that a version answer holds.
pub open spec fn device_id_in(cmd: u8, d: Seq<u8>) -> Result<u32, ErrorView> {
    if d.len() < 5 || d[0] != cmd {
        Err(unexpected("Invalid device ID response"@))
    } else {
        Ok(le32(d[1], d[2], d[3], d[4]))
    }
}

/// The firmware version that a version answer holds.
pub open spec fn version_in(cmd: u8, d: Seq<u8>) -> Result<FirmwareVersion, ErrorView> {
    if d.len() < 9 || d[0] != cmd {
        Err(unexpected("Invalid version response"@))
    } else {
        Ok(FirmwareVersion { raw: le16(d[7], d[8]) })
    }
}

/// The profile that an answer names.
pub open spec fn profile_in(cmd: u8, d: Seq<u8>) -> Result<Profile, ErrorView> {
    if d.len() == 0 || d[0] != cmd {
        Err(unexpected("Invalid profile response"@))
    } else if d[1] == 0 {
        Ok(Profile::First)
    } else if d[1] == 1 {
        Ok(Profile::Second)
    } else if d[1] == 2 {
        Ok(Profile::Third)
    } else if d[1] == 3 {
        Ok(Profile::Fourth)
    } else {
        Err(invalid("profile index must be 0-3"@))
    }
}

/// The first rate of a table with a code.
pub open spec fn rate_of(table: Seq<PollingRate>, code: u8) -> Option<PollingRate>
    decreases table.len(),
{
    if table.len() == 0 {
        None
    } else if table[0].code == code {
        Some(table[0])
    } else {
        rate_of(table.drop_first(), code)
    }
}

/// The first rate of a table with a code.
pub fn find_rate(table: &Vec<PollingRate>, code: u8) -> (r: Option<PollingRate>)
    ensures
        r == rate_of(table@, code),
{
    let mut i: usize = 0;
    assert(table@.skip(0) =~= table@);
    while i < table.len()
        invariant
            i <= table@.len(),
            rate_of(table@, code) == rate_of(table@.skip(i as int), code),
        decreases table@.len() - i,
    {
        assert(table@.skip(i as int).drop_first() =~= table@.skip(i + 1));
        if table[i].code == code {
            return Some(table[i]);
        }
        i += 1;
    }
    None
}

/// The polling rate that an answer names.
pub open spec fn rate_in(cmd: u8, table: Seq<PollingRate>, d: Seq<u8>) -> Result<
    PollingRate,
    ErrorView,
> {
    if d.len() < 3 || d[0] != cmd {
        Err(unexpected("Invalid polling rate response"@))
    } else {
        match rate_of(table, d[2]) {
            Some(rate) => Ok(rate),
            None => Err(unexpected("Unknown polling rate: 0x"@ + hex2_upper(d[2]))),
        }
    }
}

/// The largest of some rates, zero if there is none.
pub open spec fn largest(rates: Seq<u16>) -> u16
    decreases rates.len(),
{
    if rates.len() == 0 {
        0
    } else {
        let rest = largest(rates.drop_last());
        if rates.last() > rest {
            rates.last()
        } else {
            rest
        }
    }
}

/// The debounce time that an answer holds.
pub open spec fn debounce_in(cmd: u8, d: Seq<u8>) -> Result<u8, ErrorView> {
    if d.len() == 0 || d[0] != cmd {
        Err(unexpected("Invalid debounce response"@))
    } else {
        Ok(d[1])
    }
}

/// The sleep times that an answer holds.
pub open spec fn sleep_in(cmd: u8, d: Seq<u8>) -> Result<SleepTimeSettings, ErrorView> {
    if d.len() < 16 || d[0] != cmd {
        Err(unexpected("Invalid sleep time response"@))
    } else {
        Ok(
            SleepTimeSettings {
                idle_bt: le16(d[8], d[9]),
                idle_24g: le16(d[10], d[11]),
                deep_bt: le16(d[12], d[13]),
                deep_24g: le16(d[14], d[15]),
            },
        )
    }
}

/// The payload that sets sleep times: seven zeros, and four words.
pub open spec fn sleep_payload(s: SleepTimeSettings) -> Seq<u8> {
    seq![0u8, 0u8, 0u8, 0u8, 0u8, 0u8, 0u8] + le_bytes(s.idle_bt) + le_bytes(s.idle_24g) + le_bytes(
        s.deep_bt,
    ) + le_bytes(s.deep_24g)
}

/// Sleep times that are written and read back are the same: the payload behind a
/// command byte reads as the settings.
pub proof fn sleep_round_trip(cmd: u8, s: SleepTimeSettings)
    ensures
        sleep_in(cmd, seq![cmd] + sleep_payload(s)) == Ok::<SleepTimeSettings, ErrorView>(s),
{
    crate::bits::le_bytes_round_trip(s.idle_bt);
    crate::bits::le_bytes_round_trip(s.idle_24g);
    crate::bits::le_bytes_round_trip(s.deep_bt);
    crate::bits::le_bytes_round_trip(s.deep_24g);
}

/// The profile, the debounce time and the polling rate that are written are read back: the
/// payload behind a command byte reads as the value. No two rates share a code.
pub proof fn basic_settings_round_trip(
    cmd: u8,
    profile: Profile,
    ms: u8,
    table: Seq<PollingRate>,
    rate: PollingRate,
)
    requires
        table.contains(rate),
        forall|a: int, b: int|
            0 <= a < b < table.len() ==> (#[trigger] table[a]).code != (#[trigger] table[b]).code,
    ensures
        profile_in(cmd, seq![cmd] + seq![profile.index()]) == Ok::<Profile, ErrorView>(profile),
        debounce_in(cmd, seq![cmd] + seq![ms]) == Ok::<u8, ErrorView>(ms),
        rate_in(cmd, table, seq![cmd] + seq![0u8, rate.code]) == Ok::<PollingRate, ErrorView>(rate),
{
    lemma_rate_found(table, rate);
}

/// A rate whose code no other has is found by its code.
proof fn lemma_rate_found(table: Seq<PollingRate>, rate: PollingRate)
    requires
        table.contains(rate),
        forall|a: int, b: int|
            0 <= a < b < table.len() ==> (#[trigger] table[a]).code != (#[trigger] table[b]).code,
    ensures
        rate_of(table, rate.code) == Some(rate),
    decreases table.len(),
{
    let i = table.index_of(rate);
    if i > 0 {
        let rest = table.drop_first();
        assert(rest[i - 1] == rate);
        assert forall|a: int, b: int| 0 <= a < b < rest.len() implies (#[trigger] rest[a]).code != (
        #[trigger] rest[b]).code by {
            assert(rest[a] == table[a + 1] && rest[b] == table[b + 1]);
        }
        assert(table[0].code != table[i].code);
        lemma_rate_found(rest, rate);
    }
}

/// The options that an answer holds.
pub open spec fn options_in(cmd: u8, d: Seq<u8>) -> Result<KeyboardOptions, ErrorView> {
    if d.len() < 9 || d[0] != cmd {
        Err(unexpected("Invalid KB options response"@))
    } else {
        Ok(KeyboardOptions::decoded(d.skip(1)))
    }
}

/// The feature list that an answer holds.
pub open spec fn features_in(cmd: u8, d: Seq<u8>) -> Result<(u8, Seq<u8>), ErrorView> {
    if d.len() == 0 || d[0] != cmd {
        Err(unexpected("Invalid feature list response"@))
    } else {
        Ok((FeatureList::precision_byte(d.skip(1)), d.skip(1)))
    }
}

/// The precision that the reply to a feature list query tells, if it does.
pub open spec fn precision_told(cmd: u8, reply: ReplyView) -> Option<Precision> {
    match reply {
        Err(_) => None,
        Ok(d) => match features_in(cmd, d) {
            Err(_) => None,
            Ok(features) => FeatureList::level(features.0),
        },
    }
}

/// The travel precision: from the feature list, or else from the firmware version.
pub open spec fn precision_found(
    features_cmd: u8,
    version_cmd: u8,
    thresholds: PrecisionThresholds,
    replies: Seq<ReplyView>,
) -> StepView<Precision> {
    if replies.len() == 0 {
        StepView::Ask(query(features_cmd))
    } else {
        match precision_told(features_cmd, replies[0]) {
            Some(p) => StepView::Done(Ok(p)),
            None => asked(
                replies.skip(1),
                query(version_cmd),
                |d: Seq<u8>|
                    match version_in(version_cmd, d) {
                        Ok(v) => Ok(Precision::of_version(v.raw, thresholds)),
                        Err(e) => Err(e),
                    },
            ),
        }
    }
}

impl KeyboardInterface {
    /// A keyboard as it is before its device database entry is known.
    pub fn new(
        device: DeviceInfo,
        key_count: u8,
        has_magnetism: bool,
        commands: CommandTable,
        rate_codes: Vec<PollingRate>,
    ) -> (r: Self)
        ensures
            r.device == device,
            r.key_count == key_count,
            r.has_magnetism == has_magnetism,
            r.commands == commands,
            r.rate_codes == rate_codes,
            r.matrix_key_names@.len() == 0,
            r.matrix_defaults@.len() == 0,
            r.non_analog_positions@.len() == 0,
            r.polling_rates@.len() == 0,
            r.active_profile == Profile::First,
    {
        KeyboardInterface {
            device,
            key_count,
            has_magnetism,
            matrix_key_names: Vec::new(),
            matrix_defaults: Vec::new(),
            non_analog_positions: Vec::new(),
            polling_rates: Vec::new(),
            active_profile: Profile::First,
            commands,
            rate_codes,
        }
    }

    /// Set the profile that keymatrix and Fn operations target.
    ///
    /// Does not switch the keyboard; see [`set_profile`](Self::set_profile) for that.
    pub fn set_active_profile(&mut self, profile: Profile)
        ensures
            *final(self) == (KeyboardInterface { active_profile: profile, ..*old(self) }),
    {
        self.active_profile = profile;
    }

    /// Profile that keymatrix and Fn operations target.
    pub fn active_profile(&self) -> (r: Profile)
        ensures
            r == self.active_profile,
    {
        self.active_profile
    }

    /// Set the matrix key names.
    pub fn set_matrix_key_names(&mut self, names: Vec<String>)
        ensures
            *final(self) == (KeyboardInterface { matrix_key_names: names, ..*old(self) }),
    {
        self.matrix_key_names = names;
    }

    /// Set the factory keycode per matrix position.
    pub fn set_matrix_defaults(&mut self, defaults: Vec<u8>)
        ensures
            *final(self) == (KeyboardInterface { matrix_defaults: defaults, ..*old(self) }),
    {
        self.matrix_defaults = defaults;
    }

    /// Set the matrix positions that cannot be calibrated.
    pub fn set_non_analog_positions(&mut self, positions: Vec<u8>)
        ensures
            *final(self) == (KeyboardInterface { non_analog_positions: positions, ..*old(self) }),
    {
        self.non_analog_positions = positions;
    }

    /// Restrict which polling rates may be set.
    pub fn set_polling_rates(&mut self, rates: Vec<u16>)
        ensures
            *final(self) == (KeyboardInterface { polling_rates: rates, ..*old(self) }),
    {
        self.polling_rates = rates;
    }

    /// Factory keycode of a position as the device database has it; zero counts as
    /// unknown.
    pub open spec fn default_at(self, position: int) -> Option<u8> {
        if 0 <= position < self.matrix_defaults@.len() && self.matrix_defaults@[position] != 0 {
            Some(self.matrix_defaults@[position])
        } else {
            None
        }
    }

    /// Name of a position, empty where there is no physical key.
    pub open spec fn name_at(self, position: int) -> Seq<char> {
        if 0 <= position < self.matrix_key_names@.len() {
            self.matrix_key_names@[position]@
        } else {
            ""@
        }
    }

    /// Number of positions in the matrix, empty ones included.
    pub open spec fn matrix_len(self) -> nat {
        if self.matrix_key_names@.len() == 0 {
            self.key_count as nat
        } else {
            self.matrix_key_names@.len()
        }
    }

    /// Factory keycode of a matrix position, or `None` when this device's layout is not
    /// in the database.
    pub fn matrix_default(&self, position: usize) -> (r: Option<u8>)
        ensures
            r == self.default_at(position as int),
    {
        if position < self.matrix_defaults.len() && self.matrix_defaults[position] != 0 {
            Some(self.matrix_defaults[position])
        } else {
            None
        }
    }

    /// Display name of a matrix position, empty for positions with no physical key.
    pub fn matrix_key_name(&self, position: usize) -> (r: &str)
        ensures
            r@ == self.name_at(position as int),
    {
        if position < self.matrix_key_names.len() {
            self.matrix_key_names[position].as_str()
        } else {
            ""
        }
    }

    /// Whether a matrix position is no magnetic switch. Positions are bytes; a larger
    /// one counts by its low byte.
    pub fn is_non_analog(&self, position: usize) -> (r: bool)
        ensures
            r == self.non_analog_positions@.contains((position % 256) as u8),
    {
        let wanted: u8 = (position % 256) as u8;
        let mut i: usize = 0;
        while i < self.non_analog_positions.len()
            invariant
                i <= self.non_analog_positions@.len(),
                wanted == (position % 256) as u8,
                forall|k: int| 0 <= k < i ==> self.non_analog_positions@[k] != wanted,
            decreases self.non_analog_positions@.len() - i,
        {
            if self.non_analog_positions[i] == wanted {
                assert(self.non_analog_positions@[i as int] == wanted);
                return true;
            }
            i += 1;
        }
        false
    }

    /// Number of positions in the matrix, empty ones included.
    pub fn matrix_size(&self) -> (r: usize)
        ensures
            r == self.matrix_len(),
    {
        if self.matrix_key_names.len() == 0 {
            self.key_count as usize
        } else {
            self.matrix_key_names.len()
        }
    }

    /// How many matrix positions to scan: one past the highest that the board uses, and
    /// not the number of keys.
    pub fn matrix_positions(&self) -> (r: u8)
        ensures
            r == self.key_count,
    {
        self.key_count
    }

    /// Whether the keyboard has magnetic switches.
    pub fn has_magnetism(&self) -> (r: bool)
        ensures
            r == self.has_magnetism,
    {
        self.has_magnetism
    }

    /// Whether the transport is wireless.
    pub fn is_wireless(&self) -> (r: bool)
        ensures
            r == self.device.wireless,
    {
        self.device.wireless
    }

    /// Whether the keyboard is connected via a dongle.
    pub fn is_dongle(&self) -> (r: bool)
        ensures
            r == self.device.dongle,
    {
        self.device.dongle
    }

    /// The USB vendor ID.
    pub fn vid(&self) -> (r: u16)
        ensures
            r == self.device.vid,
    {
        self.device.vid
    }

    /// The USB product ID.
    pub fn pid(&self) -> (r: u16)
        ensures
            r == self.device.pid,
    {
        self.device.pid
    }

    /// The device's name: its product name, or else its two IDs.
    pub fn device_name(&self) -> (r: String)
        ensures
            r@ == (match self.device.product_name {
                Some(name) => name@,
                None => hex4_upper(self.device.vid) + ":"@ + hex4_upper(self.device.pid),
            }),
    {
        match &self.device.product_name {
            Some(name) => name.clone(),
            None => {
                let mut out = String::new();
                push_hex4_upper(&mut out, self.device.vid);
                out.append(":");
                push_hex4_upper(&mut out, self.device.pid);
                assert(out@ =~= hex4_upper(self.device.vid) + ":"@ + hex4_upper(self.device.pid));
                out
            },
        }
    }

    /// Get the device ID.
    pub fn get_device_id(&self, replies: &[Reply]) -> (r: Step<u32>)
        ensures
            r@ == asked(
                seen(replies@),
                query(self.commands.get_usb_version),
                |d: Seq<u8>| device_id_in(self.commands.get_usb_version, d),
            ),
    {
        let cmd: u8 = self.commands.get_usb_version;
        match first(replies) {
            Answer::Open => Step::Ask(query_request(cmd)),
            Answer::Failed(e) => Step::Done(Err(e)),
            Answer::Data(d) => {
                if d.len() < 5 || d[0] != cmd {
                    Step::Done(
                        Err(KeyboardError::unexpected_response("Invalid device ID response")),
                    )
                } else {
                    Step::Done(Ok(double_word(d[1], d[2], d[3], d[4])))
                }
            },
        }
    }

    /// Get the firmware version.
    pub fn get_version(&self, replies: &[Reply]) -> (r: Step<FirmwareVersion>)
        ensures
            r@ == asked(
                seen(replies@),
                query(self.commands.get_usb_version),
                |d: Seq<u8>| version_in(self.commands.get_usb_version, d),
            ),
    {
        let cmd: u8 = self.commands.get_usb_version;
        match first(replies) {
            Answer::Open => Step::Ask(query_request(cmd)),
            Answer::Failed(e) => Step::Done(Err(e)),
            Answer::Data(d) => {
                if d.len() < 9 || d[0] != cmd {
                    Step::Done(Err(KeyboardError::unexpected_response("Invalid version response")))
                } else {
                    Step::Done(Ok(FirmwareVersion { raw: word(d[7], d[8]) }))
                }
            },
        }
    }

    /// Get battery information from the transport's status `(level, online, idle)`.
    /// Whether it is charging cannot be told.
    pub fn get_battery(&self, status: Option<Result<(u8, bool, bool), KeyboardError>>) -> (r: Step<
        BatteryInfo,
    >)
        ensures
            r@ == (match status {
                None => StepView::Ask(RequestView::BatteryStatus),
                Some(Err(e)) => StepView::Done(Err(e@)),
                Some(Ok((level, online, idle))) => StepView::Done(
                    Ok(BatteryInfo { level, online, charging: false, idle }),
                ),
            }),
    {
        match status {
            None => Step::Ask(Request::BatteryStatus),
            Some(Err(e)) => Step::Done(Err(e)),
            Some(Ok((level, online, idle))) => Step::Done(
                Ok(BatteryInfo { level, online, charging: false, idle }),
            ),
        }
    }

    /// Get the profile that the keyboard is switched to. An answer must reach beyond the
    /// echo.
    pub fn get_profile(&self, replies: &[Reply]) -> (r: Step<Profile>)
        requires
            replies@.len() > 0 ==> (replies@[0] matches Ok(d) ==> d@.len() != 1 || d@[0]
                != self.commands.get_profile),
        ensures
            r@ == asked(
                seen(replies@),
                query(self.commands.get_profile),
                |d: Seq<u8>| profile_in(self.commands.get_profile, d),
            ),
    {
        let cmd: u8 = self.commands.get_profile;
        match first(replies) {
            Answer::Open => Step::Ask(query_request(cmd)),
            Answer::Failed(e) => Step::Done(Err(e)),
            Answer::Data(d) => {
                if d.len() == 0 || d[0] != cmd {
                    Step::Done(Err(KeyboardError::unexpected_response("Invalid profile response")))
                } else {
                    assert(seen(replies@)[0] == crate::exchange::reply_view(replies@[0]));
                    Step::Done(Profile::from_index(d[1]))
                }
            },
        }
    }

    /// Switch the keyboard to a profile.
    pub fn set_profile(&self, profile: Profile, replies: &[Reply]) -> (r: Step<()>)
        ensures
            r@ == sent(
                seen(replies@),
                seq![command(self.commands.set_profile, seq![profile.index()])],
            ),
    {
        let data: Vec<u8> = vec![profile.get()];
        assert(data@ =~= seq![profile.index()]);
        send_one(command_request(self.commands.set_profile, data), replies)
    }

    /// Get the polling rate, where the protocol family has one.
    pub fn get_polling_rate(&self, replies: &[Reply]) -> (r: Step<PollingRate>)
        ensures
            r@ == (match self.commands.get_report {
                None => StepView::Done(
                    Err(unsupported("Polling rate not available on this device"@)),
                ),
                Some(cmd) => asked(
                    seen(replies@),
                    query(cmd),
                    |d: Seq<u8>| rate_in(cmd, self.rate_codes@, d),
                ),
            }),
    {
        let cmd: u8 = match self.commands.get_report {
            Some(cmd) => cmd,
            None => {
                return Step::Done(
                    Err(KeyboardError::not_supported("Polling rate not available on this device")),
                );
            },
        };
        match first(replies) {
            Answer::Open => Step::Ask(query_request(cmd)),
            Answer::Failed(e) => Step::Done(Err(e)),
            Answer::Data(d) => {
                if d.len() < POLLING_RATE_FRAME_OFFSET + 1 || d[0] != cmd {
                    return Step::Done(
                        Err(KeyboardError::unexpected_response("Invalid polling rate response")),
                    );
                }
                let code: u8 = d[POLLING_RATE_FRAME_OFFSET];
                match find_rate(&self.rate_codes, code) {
                    Some(rate) => Step::Done(Ok(rate)),
                    None => {
                        let mut m: String = "Unknown polling rate: 0x".to_owned();
                        push_hex2_upper(&mut m, code);
                        Step::Done(Err(KeyboardError::UnexpectedResponse(m)))
                    },
                }
            },
        }
    }

    /// Set the polling rate, where the protocol family has one and the model accepts it.
    pub fn set_polling_rate(&self, rate: PollingRate, replies: &[Reply]) -> (r: Step<()>)
        ensures
            r@ == (match self.commands.set_report {
                None => StepView::Done(
                    Err(unsupported("Polling rate not available on this device"@)),
                ),
                Some(cmd) => if self.polling_rates@.len() > 0 && !self.polling_rates@.contains(
                    rate.hz,
                ) {
                    StepView::Done(
                        Err(
                            unsupported(
                                dec(rate.hz as nat) + " Hz is above this device's maximum of "@
                                    + dec(largest(self.polling_rates@) as nat) + " Hz"@,
                            ),
                        ),
                    )
                } else {
                    sent(seen(replies@), seq![command(cmd, seq![0u8, rate.code])])
                },
            }),
    {
        let cmd: u8 = match self.commands.set_report {
            Some(cmd) => cmd,
            None => {
                return Step::Done(
                    Err(KeyboardError::not_supported("Polling rate not available on this device")),
                );
            },
        };
        let mut known: bool = false;
        let mut max: u16 = 0;
        let mut i: usize = 0;
        assert(self.polling_rates@.take(0).len() == 0);
        while i < self.polling_rates.len()
            invariant
                i <= self.polling_rates@.len(),
                known == exists|k: int| 0 <= k < i && self.polling_rates@[k] == rate.hz,
                max == largest(self.polling_rates@.take(i as int)),
            decreases self.polling_rates@.len() - i,
        {
            let hz: u16 = self.polling_rates[i];
            assert(self.polling_rates@.take(i + 1).drop_last() =~= self.polling_rates@.take(
                i as int,
            ));
            if hz == rate.hz {
                known = true;
            }
            if hz > max {
                max = hz;
            }
            i += 1;
        }
        assert(self.polling_rates@.take(i as int) =~= self.polling_rates@);
        assert(known == self.polling_rates@.contains(rate.hz));
        if self.polling_rates.len() > 0 && !known {
            let mut m: String = dec_string(rate.hz as u64);
            m.append(" Hz is above this device's maximum of ");
            push_dec(&mut m, max as u64);
            m.append(" Hz");
            return Step::Done(Err(KeyboardError::NotSupported(m)));
        }
        let data: Vec<u8> = vec![0, rate.code];
        assert(data@ =~= seq![0u8, rate.code]);
        send_one(command_request(cmd, data), replies)
    }

    /// Get the debounce time in milliseconds. An answer must reach beyond the echo.
    pub fn get_debounce(&self, replies: &[Reply]) -> (r: Step<u8>)
        requires
            replies@.len() > 0 ==> (replies@[0] matches Ok(d) ==> d@.len() != 1 || d@[0]
                != self.commands.get_debounce),
        ensures
            r@ == asked(
                seen(replies@),
                query(self.commands.get_debounce),
                |d: Seq<u8>| debounce_in(self.commands.get_debounce, d),
            ),
    {
        let cmd: u8 = self.commands.get_debounce;
        match first(replies) {
            Answer::Open => Step::Ask(query_request(cmd)),
            Answer::Failed(e) => Step::Done(Err(e)),
            Answer::Data(d) => {
                if d.len() == 0 || d[0] != cmd {
                    Step::Done(Err(KeyboardError::unexpected_response("Invalid debounce response")))
                } else {
                    assert(seen(replies@)[0] == crate::exchange::reply_view(replies@[0]));
                    Step::Done(Ok(d[1]))
                }
            },
        }
    }

    /// Set the debounce time in milliseconds (0-50).
    pub fn set_debounce(&self, ms: u8, replies: &[Reply]) -> (r: Step<()>)
        ensures
            r@ == (if ms > DEBOUNCE_MAX_MS {
                StepView::Done(Err(invalid("Debounce must be 0-50ms"@)))
            } else {
                sent(seen(replies@), seq![command(self.commands.set_debounce, seq![ms])])
            }),
    {
        if ms > DEBOUNCE_MAX_MS {
            return Step::Done(Err(KeyboardError::invalid_parameter("Debounce must be 0-50ms")));
        }
        let data: Vec<u8> = vec![ms];
        assert(data@ =~= seq![ms]);
        send_one(command_request(self.commands.set_debounce, data), replies)
    }

    /// Get the sleep times of all wireless modes, in seconds.
    pub fn get_sleep_time(&self, replies: &[Reply]) -> (r: Step<SleepTimeSettings>)
        ensures
            r@ == (match self.commands.get_sleeptime {
                None => StepView::Done(
                    Err(unsupported("Sleep time not available on this device"@)),
                ),
                Some(cmd) => asked(
                    seen(replies@),
                    query(cmd),
                    |d: Seq<u8>| sleep_in(cmd, d),
                ),
            }),
    {
        let cmd: u8 = match self.commands.get_sleeptime {
            Some(cmd) => cmd,
            None => {
                return Step::Done(
                    Err(KeyboardError::not_supported("Sleep time not available on this device")),
                );
            },
        };
        match first(replies) {
            Answer::Open => Step::Ask(query_request(cmd)),
            Answer::Failed(e) => Step::Done(Err(e)),
            Answer::Data(d) => {
                if d.len() < 16 || d[0] != cmd {
                    return Step::Done(
                        Err(KeyboardError::unexpected_response("Invalid sleep time response")),
                    );
                }
                Step::Done(
                    Ok(
                        SleepTimeSettings {
                            idle_bt: word(d[8], d[9]),
                            idle_24g: word(d[10], d[11]),
                            deep_bt: word(d[12], d[13]),
                            deep_24g: word(d[14], d[15]),
                        },
                    ),
                )
            },
        }
    }

    /// Set the sleep times of all wireless modes, in seconds; 0 disables one.
    pub fn set_sleep_time(&self, settings: &SleepTimeSettings, replies: &[Reply]) -> (r: Step<()>)
        ensures
            r@ == (match self.commands.set_sleeptime {
                None => StepView::Done(
                    Err(unsupported("Sleep time not available on this device"@)),
                ),
                Some(cmd) => sent(seen(replies@), seq![command(cmd, sleep_payload(*settings))]),
            }),
    {
        let cmd: u8 = match self.commands.set_sleeptime {
            Some(cmd) => cmd,
            None => {
                return Step::Done(
                    Err(KeyboardError::not_supported("Sleep time not available on this device")),
                );
            },
        };
        let data: Vec<u8> =
            vec![
            0, 0, 0, 0, 0, 0, 0,
            low_byte(settings.idle_bt), high_byte(settings.idle_bt),
            low_byte(settings.idle_24g), high_byte(settings.idle_24g),
            low_byte(settings.deep_bt), high_byte(settings.deep_bt),
            low_byte(settings.deep_24g), high_byte(settings.deep_24g),
        ];
        assert(data@ =~= sleep_payload(*settings));
        send_one(command_request(cmd, data), replies)
    }

    /// Get the keyboard options.
    pub fn get_kb_options(&self, replies: &[Reply]) -> (r: Step<KeyboardOptions>)
        ensures
            r@ == (match self.commands.get_kboption {
                None => StepView::Done(
                    Err(unsupported("KB options not available on this device"@)),
                ),
                Some(cmd) => asked(
                    seen(replies@),
                    query(cmd),
                    |d: Seq<u8>| options_in(cmd, d),
                ),
            }),
    {
        let cmd: u8 = match self.commands.get_kboption {
            Some(cmd) => cmd,
            None => {
                return Step::Done(
                    Err(KeyboardError::not_supported("KB options not available on this device")),
                );
            },
        };
        match first(replies) {
            Answer::Open => Step::Ask(query_request(cmd)),
            Answer::Failed(e) => Step::Done(Err(e)),
            Answer::Data(d) => {
                if d.len() < 9 || d[0] != cmd {
                    return Step::Done(
                        Err(KeyboardError::unexpected_response("Invalid KB options response")),
                    );
                }
                let body: Vec<u8> = sub_bytes(d, 1, d.len());
                assert(body@ =~= d@.skip(1));
                Step::Done(Ok(KeyboardOptions::from_bytes(body.as_slice())))
            },
        }
    }

    /// Set the keyboard options.
    pub fn set_kb_options(&self, options: &KeyboardOptions, replies: &[Reply]) -> (r: Step<()>)
        ensures
            r@ == (match self.commands.set_kboption {
                None => StepView::Done(
                    Err(unsupported("KB options not available on this device"@)),
                ),
                Some(cmd) => sent(seen(replies@), seq![command(cmd, options.encoded())]),
            }),
    {
        let cmd: u8 = match self.commands.set_kboption {
            Some(cmd) => cmd,
            None => {
                return Step::Done(
                    Err(KeyboardError::not_supported("KB options not available on this device")),
                );
            },
        };
        let b: [u8; 5] = options.to_bytes();
        let data: Vec<u8> = vec![b[0], b[1], b[2], b[3], b[4]];
        assert(data@ =~= options.encoded());
        send_one(command_request(cmd, data), replies)
    }

    /// Get the device feature list.
    pub fn get_feature_list(&self, replies: &[Reply]) -> (r: Step<FeatureList>)
        ensures
            r@ == asked(
                seen(replies@),
                query(self.commands.get_feature_list),
                |d: Seq<u8>| features_in(self.commands.get_feature_list, d),
            ),
    {
        let cmd: u8 = self.commands.get_feature_list;
        match first(replies) {
            Answer::Open => Step::Ask(query_request(cmd)),
            Answer::Failed(e) => Step::Done(Err(e)),
            Answer::Data(d) => {
                if d.len() == 0 || d[0] != cmd {
                    return Step::Done(
                        Err(KeyboardError::unexpected_response("Invalid feature list response")),
                    );
                }
                let body: Vec<u8> = sub_bytes(d, 1, d.len());
                assert(body@ =~= d@.skip(1));
                Step::Done(Ok(FeatureList::from_bytes(body.as_slice())))
            },
        }
    }

    /// Get the precision of travel and trigger settings: from the feature list, or, when
    /// that is not supported, from the firmware version.
    pub fn get_precision(&self, replies: &[Reply]) -> (r: Step<Precision>)
        ensures
            r@ == precision_found(
                self.commands.get_feature_list,
                self.commands.get_usb_version,
                self.commands.precision,
                seen(replies@),
            ),
    {
        match self.get_feature_list(replies) {
            Step::Ask(request) => Step::Ask(request),
            Step::Done(found) => {
                assert(replies@.len() > 0);
                if let Ok(features) = found {
                    if let Some(precision) = features.precision() {
                        return Step::Done(Ok(precision));
                    }
                }
                let rest: &[Reply] = vstd::slice::slice_subrange(replies, 1, replies.len());
                assert(seen(rest@) =~= seen(replies@).skip(1));
                match self.get_version(rest) {
                    Step::Ask(request) => Step::Ask(request),
                    Step::Done(Ok(version)) => Step::Done(
                        Ok(version.precision(&self.commands.precision)),
                    ),
                    Step::Done(Err(e)) => Step::Done(Err(e)),
                }
            },
        }
    }

    /// Factory reset the keyboard.
    pub fn reset(&self, replies: &[Reply]) -> (r: Step<()>)
        ensures
            r@ == sent(seen(replies@), seq![command(self.commands.set_reset, Seq::empty())]),
    {
        let data: Vec<u8> = Vec::new();
        assert(data@ =~= Seq::<u8>::empty());
        send_one(command_request(self.commands.set_reset, data), replies)
    }

    /// Send a raw command and get its answer.
    pub fn query_raw_cmd(&self, cmd_byte: u8, replies: &[Reply]) -> (r: Step<Vec<u8>>)
        ensures
            r@ == asked(seen(replies@), query(cmd_byte), |d: Seq<u8>| Ok(d)),
    {
        match first(replies) {
            Answer::Open => Step::Ask(query_request(cmd_byte)),
            Answer::Failed(e) => Step::Done(Err(e)),
            Answer::Data(d) => Step::Done(Ok(crate::bits::copy_bytes(d))),
        }
    }

    /// Send a raw command with data and get its answer.
    pub fn query_raw_cmd_data(&self, cmd_byte: u8, data: &[u8], replies: &[Reply]) -> (r: Step<
        Vec<u8>,
    >)
        ensures
            r@ == asked(
                seen(replies@),
                raw(cmd_byte, data@, ChecksumType::Bit7, Delivery::Query),
                |d: Seq<u8>| Ok(d),
            ),
    {
        match first(replies) {
            Answer::Open => Step::Ask(
                Request::frame(
                    cmd_byte,
                    crate::bits::copy_bytes(data),
                    ChecksumType::Bit7,
                    Delivery::Query,
                ),
            ),
            Answer::Failed(e) => Step::Done(Err(e)),
            Answer::Data(d) => Step::Done(Ok(crate::bits::copy_bytes(d))),
        }
    }

    /// Send a raw command that has no answer.
    pub fn send_raw_cmd(&self, cmd_byte: u8, data: &[u8], replies: &[Reply]) -> (r: Step<()>)
        ensures
            r@ == sent(seen(replies@), seq![command(cmd_byte, data@)]),
    {
        send_one(command_request(cmd_byte, crate::bits::copy_bytes(data)), replies)
    }

    /// Send a raw command with no pause behind it, for high-rate streaming.
    pub fn send_raw_cmd_fast(&self, cmd_byte: u8, data: &[u8], replies: &[Reply]) -> (r: Step<()>)
        ensures
            r@ == sent(
                seen(replies@),
                seq![raw(cmd_byte, data@, ChecksumType::Bit7, Delivery::SendThenWait(0))],
            ),
    {
        send_one(
            Request::frame(
                cmd_byte,
                crate::bits::copy_bytes(data),
                ChecksumType::Bit7,
                Delivery::SendThenWait(0),
            ),
            replies,
        )
    }
}

} // verus!
