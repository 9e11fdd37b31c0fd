//! Reading and writing key bindings: the keymatrix, the Fn table, macros.

use crate::error::{invalid, unexpected, ErrorView, KeyboardError};
use crate::exchange::{
    block, decoded, pages_make_up_the_store, read_block, seen, send_all, send_one, sent,
    tells_pages, whole, Part, PartView, Reply, ReplyView, Step, StepView,
};
use crate::keyboard::KeyboardInterface;
use crate::macros::{
    encode_macro, macro_data, macro_pages, macro_read, paged_macro, read_macro, text_macro_events,
    typing_events, MacroEvent, Stroke,
};
use crate::protocol::{
    raw, requests, ChecksumType, Delivery, KeymatrixLayer, Layer, MacroSlot, Profile, Request,
    RequestView, INPUT_REPORT_SIZE,
};
use crate::text::{dec, push_dec};
use vstd::prelude::*;

verus! {

/// Pause in milliseconds behind a write that saves, before the firmware answers reads
/// of the table correctly.
pub const MAGNETISM_SETTLE_MS: u64 = 250;

/// Pages of a whole keymatrix layer.
pub const KEYMATRIX_PAGES: usize = 8;

/// The requests for the pages of a keymatrix layer.
pub open spec fn keymatrix_pages(
    cmd: u8,
    profile: Profile,
    layer: KeymatrixLayer,
    num_pages: nat,
) -> Seq<RequestView> {
    Seq::new(
        num_pages,
        |i: int|
            raw(
                cmd,
                seq![profile.index(), 0xFFu8, (i % 256) as u8, layer.index()],
                ChecksumType::Bit7,
                Delivery::QueryPage(INPUT_REPORT_SIZE),
            ),
    )
}

/// The requests for the pages of the Fn table.
pub open spec fn fn_pages(cmd: u8, sys: u8, profile: Profile, num_pages: nat) -> Seq<RequestView> {
    Seq::new(
        num_pages,
        |i: int|
            raw(
                cmd,
                seq![sys, profile.index(), 0xFFu8, (i % 256) as u8],
                ChecksumType::Bit7,
                Delivery::QueryPage(INPUT_REPORT_SIZE),
            ),
    )
}

/// `data`, unless there is none.
pub open spec fn some_data(data: Seq<u8>, message: Seq<char>) -> Result<Seq<u8>, ErrorView> {
    if data.len() == 0 {
        Err(unexpected(message))
    } else {
        Ok(data)
    }
}

/// Reading a keymatrix layer from the reply `at` on.
pub open spec fn keymatrix_read(
    cmd: u8,
    profile: Profile,
    layer: KeymatrixLayer,
    num_pages: nat,
    replies: Seq<ReplyView>,
    at: nat,
) -> PartView<Seq<u8>> {
    decoded(
        block(keymatrix_pages(cmd, profile, layer, num_pages), replies, at),
        |d: Seq<u8>| some_data(d, "No keymatrix data"@),
    )
}

/// Reading the Fn table from the reply `at` on.
pub open spec fn fn_read(
    cmd: u8,
    sys: u8,
    profile: Profile,
    num_pages: nat,
    replies: Seq<ReplyView>,
    at: nat,
) -> PartView<Seq<u8>> {
    decoded(
        block(fn_pages(cmd, sys, profile, num_pages), replies, at),
        |d: Seq<u8>| some_data(d, "GET_FN returned no data"@),
    )
}

/// The config of one key in a keymatrix layer, four bytes per key.
pub open spec fn config_in(key_index: u8, matrix: Seq<u8>) -> Result<Seq<u8>, ErrorView> {
    if key_index * 4 + 4 > matrix.len() {
        Err(
            invalid("key_index "@ + dec(key_index as nat) + " out of range for keymatrix"@),
        )
    } else {
        Ok(matrix.subrange(key_index * 4, key_index * 4 + 4))
    }
}

/// Reading one key's config from the reply `at` on.
pub open spec fn config_read(
    cmd: u8,
    profile: Profile,
    layer: KeymatrixLayer,
    key_index: u8,
    replies: Seq<ReplyView>,
    at: nat,
) -> PartView<Seq<u8>> {
    decoded(
        keymatrix_read(cmd, profile, layer, KEYMATRIX_PAGES as nat, replies, at),
        |matrix: Seq<u8>| config_in(key_index, matrix),
    )
}

/// The request that writes one key's config. A write that saves needs time to settle.
pub open spec fn keymatrix_write(
    profile: Profile,
    key_index: u8,
    layer: KeymatrixLayer,
    config: Seq<u8>,
    commit: bool,
) -> RequestView {
    RequestView::KeyMatrix {
        profile,
        key_index,
        layer,
        commit,
        config,
        wait_ms: if commit {
            Some(MAGNETISM_SETTLE_MS)
        } else {
            None
        },
    }
}

/// The request that makes a key type a plain usage, without a pause.
pub open spec fn usage_write(
    profile: Profile,
    key_index: u8,
    hid_code: u8,
    enabled: bool,
    layer: KeymatrixLayer,
) -> RequestView {
    RequestView::KeyMatrix {
        profile,
        key_index,
        layer,
        commit: enabled,
        config: seq![0u8, 0u8, hid_code, 0u8],
        wait_ms: None,
    }
}

/// The request that writes one key's config on a layer: to the keymatrix, or to the Fn
/// table.
pub open spec fn layer_write(
    profile: Profile,
    key_index: u8,
    layer: Layer,
    config: Seq<u8>,
) -> RequestView {
    match layer.keymatrix() {
        Some(km) => keymatrix_write(profile, key_index, km, config, true),
        None => RequestView::FnKey { sys: 0, profile, key_index, config },
    }
}

/// The requests for the pages of a keymatrix layer.
fn keymatrix_requests(cmd: u8, profile: Profile, layer: KeymatrixLayer, num_pages: usize) -> (r: Vec<
    Request,
>)
    ensures
        requests(r@) == keymatrix_pages(cmd, profile, layer, num_pages as nat),
{
    let mut out: Vec<Request> = Vec::new();
    let mut page: usize = 0;
    while page < num_pages
        invariant
            page <= num_pages,
            requests(out@) == keymatrix_pages(cmd, profile, layer, page as nat),
        decreases num_pages - page,
    {
        let data: Vec<u8> = vec![profile.get(), 0xFF, (page % 256) as u8, layer.get()];
        assert(data@ =~= seq![profile.index(), 0xFFu8, (page % 256) as u8, layer.index()]);
        let ghost before = out@;
        out.push(
            Request::frame(
                cmd,
                data,
                ChecksumType::Bit7,
                Delivery::QueryPage(INPUT_REPORT_SIZE),
            ),
        );
        assert(requests(out@) =~= requests(before).push(out@.last()@));
        assert(keymatrix_pages(cmd, profile, layer, (page + 1) as nat) =~= keymatrix_pages(
            cmd,
            profile,
            layer,
            page as nat,
        ).push(out@.last()@));
        page += 1;
    }
    assert(requests(out@) =~= keymatrix_pages(cmd, profile, layer, num_pages as nat));
    out
}

/// The requests for the pages of the Fn table.
fn fn_requests(cmd: u8, sys: u8, profile: Profile, num_pages: usize) -> (r: Vec<Request>)
    ensures
        requests(r@) == fn_pages(cmd, sys, profile, num_pages as nat),
{
    let mut out: Vec<Request> = Vec::new();
    let mut page: usize = 0;
    while page < num_pages
        invariant
            page <= num_pages,
            requests(out@) == fn_pages(cmd, sys, profile, page as nat),
        decreases num_pages - page,
    {
        let data: Vec<u8> = vec![sys, profile.get(), 0xFF, (page % 256) as u8];
        assert(data@ =~= seq![sys, profile.index(), 0xFFu8, (page % 256) as u8]);
        let ghost before = out@;
        out.push(
            Request::frame(
                cmd,
                data,
                ChecksumType::Bit7,
                Delivery::QueryPage(INPUT_REPORT_SIZE),
            ),
        );
        assert(requests(out@) =~= requests(before).push(out@.last()@));
        assert(fn_pages(cmd, sys, profile, (page + 1) as nat) =~= fn_pages(
            cmd,
            sys,
            profile,
            page as nat,
        ).push(out@.last()@));
        page += 1;
    }
    assert(requests(out@) =~= fn_pages(cmd, sys, profile, num_pages as nat));
    out
}

impl KeyboardInterface {
    /// Read a keymatrix layer from the reply `at` on.
    pub fn keymatrix_part(
        &self,
        profile: Profile,
        layer: KeymatrixLayer,
        num_pages: usize,
        replies: &[Reply],
        at: usize,
    ) -> (r: Part<Vec<u8>>)
        requires
            at <= replies@.len(),
        ensures
            r@ == keymatrix_read(
                self.commands.get_keymatrix,
                profile,
                layer,
                num_pages as nat,
                seen(replies@),
                at as nat,
            ),
            r.within(at as int, replies@.len() as int),
    {
        let list: Vec<Request> = keymatrix_requests(
            self.commands.get_keymatrix,
            profile,
            layer,
            num_pages,
        );
        match read_block(list, replies, at) {
            Part::Found { value, next } => {
                if value.len() == 0 {
                    Part::Failed {
                        error: KeyboardError::unexpected_response("No keymatrix data"),
                        next,
                    }
                } else {
                    Part::Found { value, next }
                }
            },
            other => other,
        }
    }

    /// Read a keymatrix layer of a profile: four bytes per key.
    ///
    /// Both coordinates are explicit, so that a layer cannot be taken for a profile. Eight
    /// pages hold the full matrix. A page that fails ends the read: dropping one would
    /// slide every later binding onto the wrong key.
    pub fn get_keymatrix(
        &self,
        profile: Profile,
        layer: KeymatrixLayer,
        num_pages: usize,
        replies: &[Reply],
    ) -> (r: Step<Vec<u8>>)
        ensures
            r@ == whole(
                keymatrix_read(
                    self.commands.get_keymatrix,
                    profile,
                    layer,
                    num_pages as nat,
                    seen(replies@),
                    0,
                ),
            ),
    {
        self.keymatrix_part(profile, layer, num_pages, replies, 0).into_step()
    }

    /// Read the Fn table from the reply `at` on.
    pub fn fn_keymatrix_part(
        &self,
        profile: Profile,
        sys: u8,
        num_pages: usize,
        replies: &[Reply],
        at: usize,
    ) -> (r: Part<Vec<u8>>)
        requires
            at <= replies@.len(),
        ensures
            r@ == fn_read(
                self.commands.get_fn,
                sys,
                profile,
                num_pages as nat,
                seen(replies@),
                at as nat,
            ),
            r.within(at as int, replies@.len() as int),
    {
        let list: Vec<Request> = fn_requests(self.commands.get_fn, sys, profile, num_pages);
        match read_block(list, replies, at) {
            Part::Found { value, next } => {
                if value.len() == 0 {
                    Part::Failed {
                        error: KeyboardError::unexpected_response("GET_FN returned no data"),
                        next,
                    }
                } else {
                    Part::Found { value, next }
                }
            },
            other => other,
        }
    }

    /// Read the Fn table. `sys` is the OS variant: 0 for Windows, 1 for Mac.
    pub fn get_fn_keymatrix(
        &self,
        profile: Profile,
        sys: u8,
        num_pages: usize,
        replies: &[Reply],
    ) -> (r: Step<Vec<u8>>)
        ensures
            r@ == whole(
                fn_read(
                    self.commands.get_fn,
                    sys,
                    profile,
                    num_pages as nat,
                    seen(replies@),
                    0,
                ),
            ),
    {
        self.fn_keymatrix_part(profile, sys, num_pages, replies, 0).into_step()
    }

    /// Read one key's config from the reply `at` on.
    pub fn key_config_part(
        &self,
        profile: Profile,
        layer: KeymatrixLayer,
        key_index: u8,
        replies: &[Reply],
        at: usize,
    ) -> (r: Part<[u8; 4]>)
        requires
            at <= replies@.len(),
        ensures
            r@ == config_read(
                self.commands.get_keymatrix,
                profile,
                layer,
                key_index,
                seen(replies@),
                at as nat,
            ),
            r.within(at as int, replies@.len() as int),
    {
        match self.keymatrix_part(profile, layer, KEYMATRIX_PAGES, replies, at) {
            Part::Ask(request) => Part::Ask(request),
            Part::Failed { error, next } => Part::Failed { error, next },
            Part::Found { value, next } => {
                let off: usize = key_index as usize * 4;
                if off + 4 > value.len() {
                    let mut m: String = "key_index ".to_owned();
                    push_dec(&mut m, key_index as u64);
                    m.append(" out of range for keymatrix");
                    return Part::Failed { error: KeyboardError::InvalidParameter(m), next };
                }
                let config: [u8; 4] = [
                    value[off],
                    value[off + 1],
                    value[off + 2],
                    value[off + 3],
                ];
                assert(config@ =~= value@.subrange(off as int, off + 4));
                Part::Found { value: config, next }
            },
        }
    }

    /// Read the four bytes that a keymatrix layer stores for a key.
    pub fn get_key_config_at_layer(
        &self,
        profile: Profile,
        layer: KeymatrixLayer,
        key_index: u8,
        replies: &[Reply],
    ) -> (r: Step<[u8; 4]>)
        ensures
            r@ == whole(
                config_read(
                    self.commands.get_keymatrix,
                    profile,
                    layer,
                    key_index,
                    seen(replies@),
                    0,
                ),
            ),
    {
        self.key_config_part(profile, layer, key_index, replies, 0).into_step()
    }

    /// Write a key's four bytes to a keymatrix layer.
    ///
    /// `commit` saves: set it on the last write of a batch only, which persists those
    /// before it.
    pub fn set_keymatrix_config(
        &self,
        profile: Profile,
        key_index: u8,
        layer: KeymatrixLayer,
        config: [u8; 4],
        commit: bool,
        replies: &[Reply],
    ) -> (r: Step<()>)
        ensures
            r@ == sent(
                seen(replies@),
                seq![keymatrix_write(profile, key_index, layer, config@, commit)],
            ),
    {
        send_one(write_config(profile, key_index, layer, config, commit), replies)
    }

    /// Write a key's four bytes to the Fn table, where all zeros mean that the layer
    /// below shows through.
    pub fn set_fn_config(
        &self,
        profile: Profile,
        key_index: u8,
        config: [u8; 4],
        replies: &[Reply],
    ) -> (r: Step<()>)
        ensures
            r@ == sent(
                seen(replies@),
                seq![RequestView::FnKey { sys: 0, profile, key_index, config: config@ }],
            ),
    {
        send_one(Request::FnKey { sys: 0, profile, key_index, config }, replies)
    }

    /// Write a key's four bytes on a layer of the active profile.
    pub fn set_layer_config(
        &self,
        layer: Layer,
        key_index: u8,
        config: [u8; 4],
        replies: &[Reply],
    ) -> (r: Step<()>)
        ensures
            r@ == sent(
                seen(replies@),
                seq![layer_write(self.active_profile, key_index, layer, config@)],
            ),
    {
        match layer.keymatrix_layer() {
            Some(km) => self.set_keymatrix_config(
                self.active_profile,
                key_index,
                km,
                config,
                true,
                replies,
            ),
            None => self.set_fn_config(self.active_profile, key_index, config, replies),
        }
    }

    /// Make a key type a plain usage.
    pub fn set_keymatrix(
        &self,
        profile: Profile,
        key_index: u8,
        hid_code: u8,
        enabled: bool,
        layer: KeymatrixLayer,
        replies: &[Reply],
    ) -> (r: Step<()>)
        ensures
            r@ == sent(
                seen(replies@),
                seq![usage_write(profile, key_index, hid_code, enabled, layer)],
            ),
    {
        send_one(write_usage(profile, key_index, hid_code, enabled, layer), replies)
    }

    /// Clear a key's entry on an overlay layer, so that the base layer shows through.
    ///
    /// Not for the base layer: it has no ROM fallback, and an empty entry there silences
    /// the key.
    pub fn reset_key(&self, layer: Layer, key_index: u8, replies: &[Reply]) -> (r: Step<()>)
        ensures
            r@ == (if layer == Layer::Base {
                StepView::Done(
                    Err(
                        invalid(
                            "base layer has no ROM fallback; write the factory keycode instead"@,
                        ),
                    ),
                )
            } else {
                sent(
                    seen(replies@),
                    seq![
                        layer_write(
                            self.active_profile,
                            key_index,
                            layer,
                            seq![0u8, 0u8, 0u8, 0u8],
                        ),
                    ],
                )
            }),
    {
        match layer {
            Layer::Base => Step::Done(
                Err(
                    KeyboardError::invalid_parameter(
                        "base layer has no ROM fallback; write the factory keycode instead",
                    ),
                ),
            ),
            _ => {
                let config: [u8; 4] = [0, 0, 0, 0];
                assert(config@ =~= seq![0u8, 0u8, 0u8, 0u8]);
                self.set_layer_config(layer, key_index, config, replies)
            },
        }
    }

    /// Swap two keys: each gets the usage of the other.
    pub fn swap_keys(
        &self,
        profile: Profile,
        key_a: u8,
        code_a: u8,
        key_b: u8,
        code_b: u8,
        replies: &[Reply],
    ) -> (r: Step<()>)
        ensures
            r@ == sent(
                seen(replies@),
                seq![
                    usage_write(profile, key_a, code_b, true, KeymatrixLayer::Layer0),
                    usage_write(profile, key_b, code_a, true, KeymatrixLayer::Layer0),
                ],
            ),
    {
        let mut list: Vec<Request> = Vec::new();
        list.push(write_usage(profile, key_a, code_b, true, KeymatrixLayer::Layer0));
        list.push(write_usage(profile, key_b, code_a, true, KeymatrixLayer::Layer0));
        assert(requests(list@) =~= seq![
            usage_write(profile, key_a, code_b, true, KeymatrixLayer::Layer0),
            usage_write(profile, key_b, code_a, true, KeymatrixLayer::Layer0),
        ]);
        send_all(list, replies)
    }

    /// Get the data of a macro slot: a repeat count and events.
    pub fn get_macro(&self, macro_index: MacroSlot, replies: &[Reply]) -> (r: Step<Vec<u8>>)
        ensures
            r@ == macro_read(
                self.commands.get_macro,
                macro_index,
                seen(replies@),
                0,
                Seq::empty(),
            ),
    {
        read_macro(self.commands.get_macro, macro_index, replies)
    }

    /// Store a macro: a repeat count and events, in pages of 56 bytes.
    pub fn set_macro(
        &self,
        macro_index: MacroSlot,
        events: &[MacroEvent],
        repeat_count: u16,
        replies: &[Reply],
    ) -> (r: Step<()>)
        ensures
            r@ == sent(
                seen(replies@),
                macro_pages(macro_index, macro_data(events@, repeat_count)),
            ),
    {
        let data: Vec<u8> = encode_macro(events, repeat_count);
        send_all(paged_macro(macro_index, data.as_slice()), replies)
    }

    /// Store a macro that types a text. `strokes` are the key strokes of its characters;
    /// a character that no key types is left out.
    pub fn set_text_macro(
        &self,
        macro_index: MacroSlot,
        strokes: &[Stroke],
        delay_ms: u16,
        repeat: u16,
        replies: &[Reply],
    ) -> (r: Step<()>)
        ensures
            r@ == sent(
                seen(replies@),
                macro_pages(
                    macro_index,
                    macro_data(typing_events(strokes@, delay_ms), repeat),
                ),
            ),
    {
        let events: Vec<MacroEvent> = text_macro_events(strokes, delay_ms);
        self.set_macro(macro_index, events.as_slice(), repeat, replies)
    }

    /// Assign a macro to a key on any layer.
    ///
    /// `macro_type` is 0 to repeat by count, 1 to toggle, 2 to repeat while held.
    pub fn assign_macro_to_key(
        &self,
        layer: Layer,
        key_index: u8,
        macro_index: MacroSlot,
        macro_type: u8,
        replies: &[Reply],
    ) -> (r: Step<()>)
        ensures
            r@ == sent(
                seen(replies@),
                seq![
                    layer_write(
                        self.active_profile,
                        key_index,
                        layer,
                        (crate::key_action::KeyAction::Macro {
                            kind: macro_type,
                            slot: macro_index,
                        }).encoded(),
                    ),
                ],
            ),
    {
        let config: [u8; 4] = [9, macro_type, macro_index.slot, 0];
        assert(config@ =~= seq![9u8, macro_type, macro_index.slot, 0u8]);
        self.set_layer_config(layer, key_index, config, replies)
    }

    /// Remove a macro from a key on an overlay layer.
    pub fn unassign_macro_from_key(&self, layer: Layer, key_index: u8, replies: &[Reply]) -> (r: Step<
        (),
    >)
        ensures
            r@ == (if layer == Layer::Base {
                StepView::Done(
                    Err(
                        invalid(
                            "base layer has no ROM fallback; write the factory keycode instead"@,
                        ),
                    ),
                )
            } else {
                sent(
                    seen(replies@),
                    seq![
                        layer_write(
                            self.active_profile,
                            key_index,
                            layer,
                            seq![0u8, 0u8, 0u8, 0u8],
                        ),
                    ],
                )
            }),
    {
        self.reset_key(layer, key_index, replies)
    }
}

/// The request that writes one key's config.
pub fn write_config(
    profile: Profile,
    key_index: u8,
    layer: KeymatrixLayer,
    config: [u8; 4],
    commit: bool,
) -> (r: Request)
    ensures
        r@ == keymatrix_write(profile, key_index, layer, config@, commit),
{
    let wait_ms: Option<u64> = if commit {
        Some(MAGNETISM_SETTLE_MS)
    } else {
        None
    };
    Request::KeyMatrix { profile, key_index, layer, commit, config, wait_ms }
}

/// The request that makes a key type a plain usage.
pub fn write_usage(
    profile: Profile,
    key_index: u8,
    hid_code: u8,
    enabled: bool,
    layer: KeymatrixLayer,
) -> (r: Request)
    ensures
        r@ == usage_write(profile, key_index, hid_code, enabled, layer),
{
    let config: [u8; 4] = [0, 0, hid_code, 0];
    assert(config@ =~= seq![0u8, 0u8, hid_code, 0u8]);
    Request::KeyMatrix { profile, key_index, layer, commit: enabled, config, wait_ms: None }
}

/// The config of a key that was read lies within the layer, four bytes per key, and
/// keys do not overlap.
pub proof fn configs_do_not_overlap(a: u8, b: u8, matrix: Seq<u8>, replacement: Seq<u8>)
    requires
        a != b,
        a * 4 + 4 <= matrix.len(),
        b * 4 + 4 <= matrix.len(),
        replacement.len() == 4,
    ensures
        config_in(
            b,
            matrix.take(a * 4) + replacement + matrix.skip(a * 4 + 4),
        ) == config_in(b, matrix),
        config_in(a, matrix.take(a * 4) + replacement + matrix.skip(a * 4 + 4)) == Ok::<
            Seq<u8>,
            ErrorView,
        >(replacement),
{
    let new = matrix.take(a * 4) + replacement + matrix.skip(a * 4 + 4);
    assert(new.len() == matrix.len());
    assert(new.subrange(b * 4, b * 4 + 4) =~= matrix.subrange(b * 4, b * 4 + 4));
    assert(new.subrange(a * 4, a * 4 + 4) =~= replacement);
}

/// Writing keys on a layer of the base kind never touches the Fn table, and the other
/// way round.
pub proof fn layers_are_separate_stores(profile: Profile, key_index: u8, layer: Layer, config: Seq<u8>)
    ensures
        (layer == Layer::Fn) == (layer_write(profile, key_index, layer, config) is FnKey),
        (layer != Layer::Fn) == (layer_write(profile, key_index, layer, config) is KeyMatrix),
{
}

/// A layer's store once a key's config is written.
pub open spec fn with_config(store: Seq<u8>, key_index: u8, config: Seq<u8>) -> Seq<u8> {
    store.take(key_index * 4) + config + store.skip(key_index * 4 + 4)
}

/// What is written to a key of a layer is read back from it, and every other key reads as
/// before. A layer holds 128 keys.
pub proof fn written_binding_is_read_back(
    store: Seq<u8>,
    key_index: u8,
    config: Seq<u8>,
    other: u8,
    cmd: u8,
    profile: Profile,
    layer: KeymatrixLayer,
    replies: Seq<ReplyView>,
)
    requires
        store.len() == KEYMATRIX_PAGES * INPUT_REPORT_SIZE,
        key_index < 128,
        config.len() == 4,
        tells_pages(
            replies,
            0,
            KEYMATRIX_PAGES as nat,
            with_config(store, key_index, config),
            INPUT_REPORT_SIZE as int,
        ),
    ensures
        config_read(cmd, profile, layer, key_index, replies, 0) == (PartView::Found {
            value: config,
            next: KEYMATRIX_PAGES as nat,
        }),
        other < 128 && other != key_index ==> config_read(cmd, profile, layer, other, replies, 0)
            == (PartView::Found {
            value: store.subrange(other * 4, other * 4 + 4),
            next: KEYMATRIX_PAGES as nat,
        }),
{
    let new = with_config(store, key_index, config);
    let list = keymatrix_pages(cmd, profile, layer, KEYMATRIX_PAGES as nat);
    assert(new.len() == 512);
    pages_make_up_the_store(list, replies, 0, new, INPUT_REPORT_SIZE as int);
    assert(new.take(512) =~= new);
    assert(new.subrange(key_index * 4, key_index * 4 + 4) =~= config);
    if other < 128 && other != key_index {
        configs_do_not_overlap(key_index, other, store, config);
    }
}

} // verus!
