//! What the settings of a keyboard promise: what is set is what goes out, and what is read
//! back.

use crate::exchange::{reply_view, seen, sent, Reply, Step, StepView};
use crate::keyboard::KeyboardInterface;
use crate::laws::board::profile_number;
use crate::protocol::{Delivery, PollingRate, Profile, RequestView};
use crate::settings::{BatteryInfo, FirmwareVersion, KeyboardOptions, Precision, SleepTimeSettings};
use vstd::prelude::*;

verus! {

/// What an operation of one request comes to, given the reply.
pub open spec fn outcome(reply: Reply) -> StepView<()> {
    match reply {
        Ok(_) => StepView::Done(Ok(())),
        Err(e) => StepView::Done(Err(e@)),
    }
}

/// The payload that a step sends.
pub open spec fn payload<V>(step: StepView<V>) -> Seq<u8> {
    match step {
        StepView::Ask(RequestView::Raw(f)) => f.data,
        _ => Seq::empty(),
    }
}

/// Whether an operation is refused because the device does not offer it.
pub open spec fn not_supported<T>(step: Step<T>) -> bool {
    step matches Step::Done(Err(e)) && e is NotSupported
}

/// Whether an operation fails because of the answer.
pub open spec fn unexpected_answer<T>(step: Step<T>) -> bool {
    step matches Step::Done(Err(e)) && e is UnexpectedResponse
}

/// Whether an operation is refused because of an argument.
pub open spec fn bad_parameter<T>(step: Step<T>) -> bool {
    step matches Step::Done(Err(e)) && e is InvalidParameter
}

/// One request, and its reply.
pub proof fn lemma_outcome(one: Seq<Reply>)
    requires
        one.len() == 1,
    ensures
        forall|q: RequestView| #[trigger] sent(seen(one), seq![q]) == outcome(one[0]),
{
    assert(seen(one)[0] == reply_view(one[0]));
    assert forall|q: RequestView| #[trigger] sent(seen(one), seq![q]) == outcome(one[0]) by {
        reveal_with_fuel(crate::exchange::walked, 3);
        assert(seq![q].drop_first() =~= Seq::<RequestView>::empty());
    }
}

/// Switching to a profile sends its number, from 0, and is read back as that profile.
pub proof fn the_profile_that_is_set_is_read(
    kb: &KeyboardInterface,
    profile: Profile,
    none: &[Reply],
    one: &[Reply],
    asks: Step<()>,
    ends: Step<()>,
    rest: Seq<u8>,
    told: &[Reply],
    asks_back: Step<Profile>,
    reads: Step<Profile>,
)
    requires
        none@.len() == 0,
        one@.len() == 1,
        told@.len() == 1,
        call_ensures(KeyboardInterface::set_profile, (kb, profile, none), asks),
        call_ensures(KeyboardInterface::set_profile, (kb, profile, one), ends),
        call_ensures(KeyboardInterface::get_profile, (kb, none), asks_back),
        told@[0] matches Ok(d) && d@ == seq![kb.commands.get_profile] + payload(asks@) + rest,
        call_ensures(KeyboardInterface::get_profile, (kb, told), reads),
    ensures
        ({
            &&& asks@ matches StepView::Ask(RequestView::Raw(f))
            &&& f.cmd == kb.commands.set_profile
            &&& f.data == seq![profile_number(profile)]
        }),
        ends@ == outcome(one@[0]),
        asks_back@ matches StepView::Ask(RequestView::Raw(f)) && f.cmd == kb.commands.get_profile,
        reads@ == StepView::<Profile>::Done(Ok(profile)),
{
    lemma_outcome(one@);
    assert(seen(told@)[0] == reply_view(told@[0]));
    let d = told@[0]->Ok_0@;
    assert(forall|i: int| 0 <= i < payload(asks@).len()
        ==> d[i + 1] == #[trigger] payload(asks@)[i]);
    assert(d[1] == payload(asks@)[0]);
}

/// Every debounce time up to 50 ms is sent as it is, and read back.
pub proof fn the_debounce_time_that_is_set_is_read(
    kb: &KeyboardInterface,
    ms: u8,
    none: &[Reply],
    one: &[Reply],
    asks: Step<()>,
    ends: Step<()>,
    rest: Seq<u8>,
    told: &[Reply],
    asks_back: Step<u8>,
    reads: Step<u8>,
)
    requires
        none@.len() == 0,
        one@.len() == 1,
        told@.len() == 1,
        ms <= 50,
        call_ensures(KeyboardInterface::set_debounce, (kb, ms, none), asks),
        call_ensures(KeyboardInterface::set_debounce, (kb, ms, one), ends),
        call_ensures(KeyboardInterface::get_debounce, (kb, none), asks_back),
        told@[0] matches Ok(d) && d@ == seq![kb.commands.get_debounce] + payload(asks@) + rest,
        call_ensures(KeyboardInterface::get_debounce, (kb, told), reads),
    ensures
        ({
            &&& asks@ matches StepView::Ask(RequestView::Raw(f))
            &&& f.cmd == kb.commands.set_debounce
            &&& f.data == seq![ms]
        }),
        ends@ == outcome(one@[0]),
        asks_back@ matches StepView::Ask(RequestView::Raw(f)) && f.cmd == kb.commands.get_debounce,
        reads == Step::<u8>::Done(Ok(ms)),
{
    lemma_outcome(one@);
    assert(seen(told@)[0] == reply_view(told@[0]));
    let d = told@[0]->Ok_0@;
    assert(forall|i: int| 0 <= i < payload(asks@).len()
        ==> d[i + 1] == #[trigger] payload(asks@)[i]);
    assert(d[1] == payload(asks@)[0]);
}

/// A polling rate that the model takes is sent as its code, behind a zero, and read back. No
/// two rates share a code.
pub proof fn the_polling_rate_that_is_set_is_read(
    kb: &KeyboardInterface,
    rate: PollingRate,
    none: &[Reply],
    one: &[Reply],
    asks: Step<()>,
    ends: Step<()>,
    rest: Seq<u8>,
    told: &[Reply],
    asks_back: Step<PollingRate>,
    reads: Step<PollingRate>,
)
    requires
        none@.len() == 0,
        one@.len() == 1,
        told@.len() == 1,
        kb.commands.set_report is Some,
        kb.commands.get_report is Some,
        kb.polling_rates@.len() == 0 || kb.polling_rates@.contains(rate.hz),
        kb.rate_codes@.contains(rate),
        forall|a: int, b: int|
            0 <= a < b < kb.rate_codes@.len() ==> (#[trigger] kb.rate_codes@[a]).code != (
            #[trigger] kb.rate_codes@[b]).code,
        call_ensures(KeyboardInterface::set_polling_rate, (kb, rate, none), asks),
        call_ensures(KeyboardInterface::set_polling_rate, (kb, rate, one), ends),
        call_ensures(KeyboardInterface::get_polling_rate, (kb, none), asks_back),
        told@[0] matches Ok(d) && d@ == seq![kb.commands.get_report->0] + payload(asks@) + rest,
        call_ensures(KeyboardInterface::get_polling_rate, (kb, told), reads),
    ensures
        ({
            &&& asks@ matches StepView::Ask(RequestView::Raw(f))
            &&& f.cmd == kb.commands.set_report->0
            &&& f.data == seq![0u8, rate.code]
        }),
        ends@ == outcome(one@[0]),
        asks_back@ matches StepView::Ask(RequestView::Raw(f)) && f.cmd == kb.commands.get_report->0,
        reads == Step::<PollingRate>::Done(Ok(rate)),
{
    lemma_outcome(one@);
    assert(seen(told@)[0] == reply_view(told@[0]));
    let d = told@[0]->Ok_0@;
    assert(forall|i: int| 0 <= i < payload(asks@).len()
        ==> d[i + 1] == #[trigger] payload(asks@)[i]);
    assert(d[1] == payload(asks@)[0] && d[2] == payload(asks@)[1]);
    crate::keyboard::basic_settings_round_trip(
        kb.commands.get_report->0,
        Profile::First,
        0,
        kb.rate_codes@,
        rate,
    );
    let short = seq![kb.commands.get_report->0] + seq![0u8, rate.code];
    assert(short[2] == rate.code);
}

/// The four sleep times are sent, and each is read back as itself.
pub proof fn the_sleep_times_that_are_set_are_read(
    kb: &KeyboardInterface,
    settings: &SleepTimeSettings,
    none: &[Reply],
    one: &[Reply],
    asks: Step<()>,
    ends: Step<()>,
    rest: Seq<u8>,
    told: &[Reply],
    asks_back: Step<SleepTimeSettings>,
    reads: Step<SleepTimeSettings>,
)
    requires
        none@.len() == 0,
        one@.len() == 1,
        told@.len() == 1,
        kb.commands.set_sleeptime is Some,
        kb.commands.get_sleeptime is Some,
        call_ensures(KeyboardInterface::set_sleep_time, (kb, settings, none), asks),
        call_ensures(KeyboardInterface::set_sleep_time, (kb, settings, one), ends),
        call_ensures(KeyboardInterface::get_sleep_time, (kb, none), asks_back),
        told@[0] matches Ok(d) && d@ == seq![kb.commands.get_sleeptime->0] + payload(asks@) + rest,
        call_ensures(KeyboardInterface::get_sleep_time, (kb, told), reads),
    ensures
        ({
            &&& asks@ matches StepView::Ask(RequestView::Raw(f))
            &&& f.cmd == kb.commands.set_sleeptime->0
            &&& f.data.len() == 15
            &&& f.data[7] + 256 * f.data[8] == settings.idle_bt
            &&& f.data[9] + 256 * f.data[10] == settings.idle_24g
            &&& f.data[11] + 256 * f.data[12] == settings.deep_bt
            &&& f.data[13] + 256 * f.data[14] == settings.deep_24g
        }),
        ends@ == outcome(one@[0]),
        asks_back@ matches StepView::Ask(RequestView::Raw(f))
            && f.cmd == kb.commands.get_sleeptime->0,
        reads == Step::<SleepTimeSettings>::Done(Ok(*settings)),
{
    lemma_outcome(one@);
    assert(seen(told@)[0] == reply_view(told@[0]));
    let d = told@[0]->Ok_0@;
    assert(forall|i: int| 0 <= i < payload(asks@).len()
        ==> d[i + 1] == #[trigger] payload(asks@)[i]);
    let p = payload(asks@);
    assert(p == crate::keyboard::sleep_payload(*settings));
    assert(p.len() == 15);
    assert(d[8] == p[7] && d[9] == p[8] && d[10] == p[9] && d[11] == p[10] && d[12] == p[11]
        && d[13] == p[12] && d[14] == p[13] && d[15] == p[14]);
    crate::bits::le_bytes_round_trip(settings.idle_bt);
    crate::bits::le_bytes_round_trip(settings.idle_24g);
    crate::bits::le_bytes_round_trip(settings.deep_bt);
    crate::bits::le_bytes_round_trip(settings.deep_24g);
}

/// Options that the firmware keeps are sent one byte each, in this order: OS mode, Fn layer,
/// anti-mistouch, stability, WASD swap; and are read back.
pub proof fn the_options_that_are_set_are_read(
    kb: &KeyboardInterface,
    options: &KeyboardOptions,
    none: &[Reply],
    one: &[Reply],
    asks: Step<()>,
    ends: Step<()>,
    rest: Seq<u8>,
    told: &[Reply],
    asks_back: Step<KeyboardOptions>,
    reads: Step<KeyboardOptions>,
)
    requires
        none@.len() == 0,
        one@.len() == 1,
        told@.len() == 1,
        kb.commands.set_kboption is Some,
        kb.commands.get_kboption is Some,
        rest.len() >= 3,
        options.os_mode < 4,
        options.fn_layer < 2,
        options.rt_stability <= 5,
        call_ensures(KeyboardInterface::set_kb_options, (kb, options, none), asks),
        call_ensures(KeyboardInterface::set_kb_options, (kb, options, one), ends),
        call_ensures(KeyboardInterface::get_kb_options, (kb, none), asks_back),
        told@[0] matches Ok(d) && d@ == seq![kb.commands.get_kboption->0] + payload(asks@) + rest,
        call_ensures(KeyboardInterface::get_kb_options, (kb, told), reads),
    ensures
        ({
            &&& asks@ matches StepView::Ask(RequestView::Raw(f))
            &&& f.cmd == kb.commands.set_kboption->0
            &&& f.data.len() == 5
            &&& f.data[0] == options.os_mode
            &&& f.data[1] == options.fn_layer
            &&& f.data[2] == (if options.anti_mistouch { 1int } else { 0 })
            &&& f.data[3] == options.rt_stability
            &&& f.data[4] == (if options.wasd_swap { 1int } else { 0 })
        }),
        ends@ == outcome(one@[0]),
        asks_back@ matches StepView::Ask(RequestView::Raw(f))
            && f.cmd == kb.commands.get_kboption->0,
        reads == Step::<KeyboardOptions>::Done(Ok(*options)),
{
    lemma_outcome(one@);
    assert(seen(told@)[0] == reply_view(told@[0]));
    let d = told@[0]->Ok_0@;
    assert(forall|i: int| 0 <= i < payload(asks@).len()
        ==> d[i + 1] == #[trigger] payload(asks@)[i]);
    let p = payload(asks@);
    assert(d.skip(1)[0] == p[0] && d.skip(1)[1] == p[1] && d.skip(1)[2] == p[2] && d.skip(1)[3]
        == p[3] && d.skip(1)[4] == p[4]);
}

/// A raw command goes out with its byte and its data.
pub proof fn raw_commands_go_out_as_they_are(
    kb: &KeyboardInterface,
    cmd_byte: u8,
    data: &[u8],
    none: &[Reply],
    one: &[Reply],
    asks: Step<()>,
    ends: Step<()>,
)
    requires
        none@.len() == 0,
        one@.len() == 1,
        call_ensures(KeyboardInterface::send_raw_cmd, (kb, cmd_byte, data, none), asks),
        call_ensures(KeyboardInterface::send_raw_cmd, (kb, cmd_byte, data, one), ends),
    ensures
        ({
            &&& asks@ matches StepView::Ask(q)
            &&& q matches RequestView::Raw(f)
            &&& f.cmd == cmd_byte
            &&& f.data == data@
        }),
        ends@ == outcome(one@[0]),
{
    lemma_outcome(one@);
}

/// A raw command that streams goes out with its byte and its data, and without a pause.
pub proof fn fast_raw_commands_do_not_wait(
    kb: &KeyboardInterface,
    cmd_byte: u8,
    data: &[u8],
    none: &[Reply],
    one: &[Reply],
    asks: Step<()>,
    ends: Step<()>,
)
    requires
        none@.len() == 0,
        one@.len() == 1,
        call_ensures(KeyboardInterface::send_raw_cmd_fast, (kb, cmd_byte, data, none), asks),
        call_ensures(KeyboardInterface::send_raw_cmd_fast, (kb, cmd_byte, data, one), ends),
    ensures
        ({
            &&& asks@ matches StepView::Ask(q)
            &&& q matches RequestView::Raw(f)
            &&& f.cmd == cmd_byte
            &&& f.data == data@
            &&& f.delivery == Delivery::SendThenWait(0)
        }),
        ends@ == outcome(one@[0]),
{
    lemma_outcome(one@);
}

/// A factory reset is the reset command, without data.
pub proof fn a_factory_reset_is_one_command(
    kb: &KeyboardInterface,
    none: &[Reply],
    one: &[Reply],
    asks: Step<()>,
    ends: Step<()>,
)
    requires
        none@.len() == 0,
        one@.len() == 1,
        call_ensures(KeyboardInterface::reset, (kb, none), asks),
        call_ensures(KeyboardInterface::reset, (kb, one), ends),
    ensures
        ({
            &&& asks@ matches StepView::Ask(q)
            &&& q matches RequestView::Raw(f)
            &&& f.cmd == kb.commands.set_reset
            &&& f.data.len() == 0
        }),
        ends@ == outcome(one@[0]),
{
    lemma_outcome(one@);
}

/// A debounce time over 50 ms, and a polling rate that the model does not take, are refused
/// without a request.
pub proof fn settings_out_of_range_are_refused(
    kb: &KeyboardInterface,
    ms: u8,
    rate: PollingRate,
    given: &[Reply],
    debounce: Step<()>,
    polling: Step<()>,
)
    requires
        call_ensures(KeyboardInterface::set_debounce, (kb, ms, given), debounce),
        call_ensures(KeyboardInterface::set_polling_rate, (kb, rate, given), polling),
    ensures
        ms > 50 ==> bad_parameter(debounce),
        kb.commands.set_report is None ==> not_supported(polling),
        kb.polling_rates@.len() > 0 && !kb.polling_rates@.contains(rate.hz)
            ==> not_supported(polling),
{
}

/// What a family does not have is refused without a request, by reading and by writing.
pub proof fn missing_settings_are_refused(
    kb: &KeyboardInterface,
    times: &SleepTimeSettings,
    options: &KeyboardOptions,
    given: &[Reply],
    rate: Step<PollingRate>,
    sleep: Step<SleepTimeSettings>,
    sleep_set: Step<()>,
    read: Step<KeyboardOptions>,
    written: Step<()>,
)
    requires
        call_ensures(KeyboardInterface::get_polling_rate, (kb, given), rate),
        call_ensures(KeyboardInterface::get_sleep_time, (kb, given), sleep),
        call_ensures(KeyboardInterface::set_sleep_time, (kb, times, given), sleep_set),
        call_ensures(KeyboardInterface::get_kb_options, (kb, given), read),
        call_ensures(KeyboardInterface::set_kb_options, (kb, options, given), written),
    ensures
        kb.commands.get_report is None ==> not_supported(rate),
        kb.commands.get_sleeptime is None ==> not_supported(sleep),
        kb.commands.set_sleeptime is None ==> not_supported(sleep_set),
        kb.commands.get_kboption is None ==> not_supported(read),
        kb.commands.set_kboption is None ==> not_supported(written),
{
}

/// A version answer holds the device ID behind the echo and the version word three bytes
/// further, low byte first. An answer to something else is no version.
pub proof fn version_answers_are_read(
    kb: &KeyboardInterface,
    none: &[Reply],
    told: &[Reply],
    asks_id: Step<u32>,
    asks_version: Step<FirmwareVersion>,
    id: Step<u32>,
    version: Step<FirmwareVersion>,
)
    requires
        none@.len() == 0,
        told@.len() == 1,
        told@[0] is Ok,
        call_ensures(KeyboardInterface::get_device_id, (kb, none), asks_id),
        call_ensures(KeyboardInterface::get_version, (kb, none), asks_version),
        call_ensures(KeyboardInterface::get_device_id, (kb, told), id),
        call_ensures(KeyboardInterface::get_version, (kb, told), version),
    ensures
        ({
            let d = told@[0]->Ok_0@;
            let cmd = kb.commands.get_usb_version;
            &&& asks_id@ matches StepView::Ask(RequestView::Raw(f)) && f.cmd == cmd
            &&& asks_version@ matches StepView::Ask(RequestView::Raw(f)) && f.cmd == cmd
            &&& d.len() >= 5 && d[0] == cmd ==> (id matches Step::Done(Ok(v)) && v == d[1] + 256
                * d[2] + 65536 * d[3] + 16777216 * d[4])
            &&& d.len() >= 9 && d[0] == cmd ==> (version matches Step::Done(Ok(v)) && v.raw == d[7]
                + 256 * d[8])
            &&& d.len() == 0 || d[0] != cmd ==> unexpected_answer(id)
            &&& d.len() == 0 || d[0] != cmd ==> unexpected_answer(version)
        }),
{
    assert(seen(told@)[0] == reply_view(told@[0]));
}

/// The precision comes from the feature list when that is valid, and from the firmware
/// version otherwise: the higher the version, the finer.
pub proof fn precision_prefers_the_feature_list(
    kb: &KeyboardInterface,
    none: &[Reply],
    one: &[Reply],
    two: &[Reply],
    asks: Step<Precision>,
    told: Step<Precision>,
    inferred: Step<Precision>,
)
    requires
        none@.len() == 0,
        one@.len() == 1,
        two@.len() == 2,
        one@[0] == two@[0],
        two@[1] is Ok,
        call_ensures(KeyboardInterface::get_precision, (kb, none), asks),
        call_ensures(KeyboardInterface::get_precision, (kb, one), told),
        call_ensures(KeyboardInterface::get_precision, (kb, two), inferred),
        kb.commands.precision.medium <= kb.commands.precision.fine,
    ensures
        ({
            let valid = one@[0] matches Ok(d) && d@.len() >= 3 && d@[0]
                == kb.commands.get_feature_list && d@[1] == 0xAA && d@[2] != 0xFF;
            let v = two@[1]->Ok_0@;
            let version = v[7] + 256 * v[8];
            &&& asks@ matches StepView::Ask(RequestView::Raw(f)) && f.cmd
                == kb.commands.get_feature_list
            &&& valid ==> (told matches Step::Done(Ok(p)) && p != Precision::Fine && (p
                == Precision::Medium <==> one@[0]->Ok_0@[2] == 1 || one@[0]->Ok_0@[2] == 2))
            &&& !valid ==> (told@ matches StepView::Ask(RequestView::Raw(f)) && f.cmd
                == kb.commands.get_usb_version)
            &&& !valid && v.len() >= 9 && v[0] == kb.commands.get_usb_version ==> {
                &&& inferred matches Step::Done(Ok(p))
                &&& p == Precision::Fine <==> version >= kb.commands.precision.fine
                &&& p == Precision::Coarse <==> version < kb.commands.precision.medium
            }
        }),
{
    assert(seen(one@)[0] == reply_view(one@[0]));
    assert(seen(two@)[0] == reply_view(two@[0]));
    assert(seen(two@).skip(1)[0] == reply_view(two@[1]));
    assert(seen(one@).skip(1).len() == 0);
    if let Ok(d) = one@[0] {
        if d@.len() >= 3 {
            assert(d@.skip(1)[0] == d@[1] && d@.skip(1)[1] == d@[2]);
        }
        if d@.len() == 2 {
            assert(d@.skip(1).len() == 1);
        }
    }
}

/// The battery is what the transport says, and never charging.
pub proof fn the_battery_is_what_the_transport_says(
    kb: &KeyboardInterface,
    level: u8,
    online: bool,
    idle: bool,
    told: Step<BatteryInfo>,
)
    requires
        call_ensures(KeyboardInterface::get_battery, (kb, Some(Ok((level, online, idle)))), told),
    ensures
        told matches Step::Done(Ok(b)) && b.level == level && b.online == online && b.idle == idle
            && !b.charging,
{
}

/// A raw query goes out with its byte and data, and its answer comes back as it is.
pub proof fn raw_queries_bring_the_answer(
    kb: &KeyboardInterface,
    cmd_byte: u8,
    data: &[u8],
    none: &[Reply],
    told: &[Reply],
    asks: Step<Vec<u8>>,
    asks_with_data: Step<Vec<u8>>,
    answer: Step<Vec<u8>>,
    answer_with_data: Step<Vec<u8>>,
)
    requires
        none@.len() == 0,
        told@.len() == 1,
        told@[0] is Ok,
        call_ensures(KeyboardInterface::query_raw_cmd, (kb, cmd_byte, none), asks),
        call_ensures(KeyboardInterface::query_raw_cmd, (kb, cmd_byte, told), answer),
        call_ensures(KeyboardInterface::query_raw_cmd_data, (kb, cmd_byte, data, none),
            asks_with_data),
        call_ensures(
            KeyboardInterface::query_raw_cmd_data,
            (kb, cmd_byte, data, told),
            answer_with_data,
        ),
    ensures
        asks@ matches StepView::Ask(RequestView::Raw(f)) && f.cmd == cmd_byte && f.data.len() == 0,
        asks_with_data@ matches StepView::Ask(RequestView::Raw(f)) && f.cmd == cmd_byte && f.data
            == data@,
        answer matches Step::Done(Ok(d)) && d@ == told@[0]->Ok_0@,
        answer_with_data matches Step::Done(Ok(d)) && d@ == told@[0]->Ok_0@,
{
    assert(seen(told@)[0] == reply_view(told@[0]));
}

/// A code that no rate has is not found.
proof fn lemma_no_rate(table: Seq<PollingRate>, code: u8)
    requires
        forall|k: int| 0 <= k < table.len() ==> (#[trigger] table[k]).code != code,
    ensures
        crate::keyboard::rate_of(table, code) is None,
    decreases table.len(),
{
    if table.len() > 0 {
        let rest = table.drop_first();
        assert forall|k: int| 0 <= k < rest.len() implies (#[trigger] rest[k]).code != code by {
            assert(rest[k] == table[k + 1]);
        }
        assert(table[0].code != code);
        lemma_no_rate(rest, code);
    }
}

/// An answer to another command, or one that is cut short, is refused by every reader; and so
/// is a rate code that no rate has, and a profile that is none.
pub proof fn foreign_answers_are_refused(
    kb: &KeyboardInterface,
    one: &[Reply],
    data: Vec<u8>,
    profile: Step<Profile>,
    debounce: Step<u8>,
    rate: Step<PollingRate>,
    sleep: Step<SleepTimeSettings>,
    options: Step<KeyboardOptions>,
)
    requires
        one@.len() == 1,
        one@[0] == Ok::<Vec<u8>, crate::error::KeyboardError>(data),
        call_ensures(KeyboardInterface::get_profile, (kb, one), profile),
        call_ensures(KeyboardInterface::get_debounce, (kb, one), debounce),
        call_ensures(KeyboardInterface::get_polling_rate, (kb, one), rate),
        call_ensures(KeyboardInterface::get_sleep_time, (kb, one), sleep),
        call_ensures(KeyboardInterface::get_kb_options, (kb, one), options),
    ensures
        ({
            let d = data@;
            let c = kb.commands;
            &&& d.len() == 0 || d[0] != c.get_profile ==> unexpected_answer(profile)
            &&& d.len() > 1 && d[0] == c.get_profile && d[1] > 3 ==> bad_parameter(profile)
            &&& d.len() == 0 || d[0] != c.get_debounce ==> unexpected_answer(debounce)
            &&& c.get_report is Some && (d.len() < 3 || c.get_report != Some(d[0]))
                ==> unexpected_answer(rate)
            &&& c.get_report is Some && d.len() >= 3 && (forall|k: int|
                0 <= k < kb.rate_codes@.len() ==> (#[trigger] kb.rate_codes@[k]).code != d[2])
                ==> unexpected_answer(rate)
            &&& c.get_sleeptime is Some && (d.len() < 16 || c.get_sleeptime != Some(d[0]))
                ==> unexpected_answer(sleep)
            &&& c.get_kboption is Some && (d.len() < 9 || c.get_kboption != Some(d[0]))
                ==> unexpected_answer(options)
        }),
{
    let d = data@;
    assert(seen(one@)[0] == reply_view(one@[0]));
    assert(seen(one@)[0] == Ok::<Seq<u8>, crate::error::ErrorView>(d));
    if d.len() >= 3 && (forall|k: int|
        0 <= k < kb.rate_codes@.len() ==> (#[trigger] kb.rate_codes@[k]).code != d[2]) {
        lemma_no_rate(kb.rate_codes@, d[2]);
    }
}

/// What the transport failed with is what a reader fails with.
pub proof fn transport_failures_are_told(
    kb: &KeyboardInterface,
    one: &[Reply],
    e: crate::error::KeyboardError,
    profile: Step<Profile>,
    debounce: Step<u8>,
    rate: Step<PollingRate>,
)
    requires
        one@.len() == 1,
        one@[0] == Err::<Vec<u8>, crate::error::KeyboardError>(e),
        kb.commands.get_report is Some,
        call_ensures(KeyboardInterface::get_profile, (kb, one), profile),
        call_ensures(KeyboardInterface::get_debounce, (kb, one), debounce),
        call_ensures(KeyboardInterface::get_polling_rate, (kb, one), rate),
    ensures
        profile@ == StepView::<Profile>::Done(Err(e@)),
        debounce@ == StepView::<u8>::Done(Err(e@)),
        rate@ == StepView::<PollingRate>::Done(Err(e@)),
{
    assert(seen(one@)[0] == reply_view(one@[0]));
}

} // verus!
