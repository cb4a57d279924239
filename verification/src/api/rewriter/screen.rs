//! Menus and maps: the menu type of an `OPEN_SCREEN` and the decorations of
//! a `MAP_ITEM_DATA`.

use vstd::prelude::*;
use crate::api::TranslateError;
use crate::api::rewriter::block::{cancelled, pass_raw_nbt, raw_nbt_view};
use crate::api::rewriter::chat::{take, take_view};
use crate::api::rewriter::item::{map_id, mapped_id};
use crate::api::types::{WireType, OptionalT, BOOL, I8, STRING, U8, VAR_INT};
use crate::api::wrapper::{PacketWrapper, WrapperView};
use crate::data::mappings::ComposedMappings;
use crate::packet::chunk_legacy::run_count;
use crate::version::JavaMinecraftVersion;

verus! {

/// 1.17 replaced the tracking flag with an optional icon list.
pub const FIRST_OPTIONAL_ICONS: JavaMinecraftVersion = JavaMinecraftVersion::V_1_17;

/// Text components travel as network NBT from 1.20.3 and as JSON below it.
pub const FIRST_NBT_COMPONENT: JavaMinecraftVersion = JavaMinecraftVersion::V_1_20_3;

/// What `open_screen` does to a wrapper: the window id is copied, the menu
/// type renumbered, and a menu the client lacks drops the packet.
pub open spec fn open_screen_view(w: WrapperView, ids: &ComposedMappings) -> (Result<(), TranslateError>, WrapperView) {
    match take_view(VAR_INT, w, true) {
        (Ok(_), w1) => match take_view(VAR_INT, w1, false) {
            (Ok(menu), w2) => match map_id(ids.menus, menu) {
                Some(m) => (Ok(()), w2.written(VAR_INT.encode(m)).passed_through()),
                None => (Ok(()), cancelled(w2)),
            },
            (Err(e), w2) => (Err(e), w2),
        },
        (Err(e), w1) => (Err(e), w1),
    }
}

/// Renumbers the menu type of an `OPEN_SCREEN`.
pub fn open_screen(wrapper: &mut PacketWrapper, ids: &ComposedMappings) -> (r: Result<(), TranslateError>)
    ensures
        final(wrapper)@.wf(),
        match open_screen_view(old(wrapper)@, ids) {
            (Ok(_), w) => r is Ok && final(wrapper)@ == w,
            (Err(e), w) => r matches Err(x) && x == e && final(wrapper)@ == w,
        },
{
    if let Err(e) = take(wrapper, &VAR_INT, true) {
        return Err(e);
    }
    let menu = match take(wrapper, &VAR_INT, false) {
        Ok(v) => v,
        Err(e) => return Err(e),
    };
    match mapped_id(&ids.menus, menu) {
        Some(m) => {
            let _ = wrapper.write(&VAR_INT, &m);
            wrapper.passthrough_all();
            Ok(())
        },
        None => {
            wrapper.cancel();
            Ok(())
        },
    }
}

/// A map decoration for a client on `version`: one the client does not have
/// becomes the stand in for it. From 1.20.5 there are 35 types and trial
/// chambers stands in; from 1.20.2, 34 and the jungle temple; from 1.13, 27
/// and the red marker.
pub open spec fn spec_decoration(id: i32, version: JavaMinecraftVersion) -> i32 {
    if version.spec_at_least(JavaMinecraftVersion::V_26_3) {
        id
    } else {
        let (size, fallback) = if version.spec_at_least(JavaMinecraftVersion::V_1_20_5) {
            (35int, 34i32)
        } else if version.spec_at_least(JavaMinecraftVersion::V_1_20_2) {
            (34int, 32i32)
        } else if version.spec_at_least(JavaMinecraftVersion::V_1_13) {
            (27int, 2i32)
        } else {
            (-1int, 0i32)
        };
        if size < 0 || 0 <= id < size { id } else { fallback }
    }
}

/// A map decoration for a client on `version`.
pub fn decoration(id: i32, version: JavaMinecraftVersion) -> (r: i32)
    ensures
        r == spec_decoration(id, version),
{
    if version.at_least(JavaMinecraftVersion::V_26_3) {
        return id;
    }
    let (size, fallback): (i32, i32) = if version.at_least(JavaMinecraftVersion::V_1_20_5) {
        (35, 34)
    } else if version.at_least(JavaMinecraftVersion::V_1_20_2) {
        (34, 32)
    } else if version.at_least(JavaMinecraftVersion::V_1_13) {
        (27, 2)
    } else {
        return id;
    };
    if 0 <= id && id < size { id } else { fallback }
}

/// The display name of a map decoration: optional network NBT from 1.20.3,
/// an optional string below.
pub open spec fn display_name_view(w: WrapperView, layout: JavaMinecraftVersion) -> (Result<(), TranslateError>, WrapperView) {
    if layout.spec_at_least(FIRST_NBT_COMPONENT) {
        match take_view(BOOL, w, true) {
            (Ok(present), w1) => if present { raw_nbt_view(w1, layout) } else { (Ok(()), w1) },
            (Err(e), w1) => (Err(e), w1),
        }
    } else {
        match take_view(OptionalT(STRING), w, true) {
            (Ok(_), w1) => (Ok(()), w1),
            (Err(e), w1) => (Err(e), w1),
        }
    }
}

/// The decorations of a map, `n` of them: each a type, put in the client's
/// terms, two coordinates, a rotation and a display name.
pub open spec fn icons_view(w: WrapperView, n: nat, layout: JavaMinecraftVersion) -> (Result<(), TranslateError>, WrapperView)
    decreases n,
{
    if n == 0 {
        (Ok(()), w)
    } else {
        match take_view(VAR_INT, w, false) {
            (Ok(icon), w1) => match take_view(I8, w1.written(VAR_INT.encode(spec_decoration(icon, layout))), true) {
                (Ok(_), w2) => match take_view(I8, w2, true) {
                    (Ok(_), w3) => match take_view(U8, w3, true) {
                        (Ok(_), w4) => match display_name_view(w4, layout) {
                            (Ok(_), w5) => icons_view(w5, (n - 1) as nat, layout),
                            (Err(e), w5) => (Err(e), w5),
                        },
                        (Err(e), w4) => (Err(e), w4),
                    },
                    (Err(e), w3) => (Err(e), w3),
                },
                (Err(e), w2) => (Err(e), w2),
            },
            (Err(e), w1) => (Err(e), w1),
        }
    }
}

/// What `map_item_data` does to a wrapper: the map id, scale and flags are
/// copied, and each decoration falls back to one the client has; a map with
/// no decorations is copied.
pub open spec fn map_item_data_view(w: WrapperView, layout: JavaMinecraftVersion) -> (Result<(), TranslateError>, WrapperView) {
    match take_view(VAR_INT, w, true) {
        (Ok(_), w1) => match take_view(I8, w1, true) {
            (Ok(_), w2) => match take_view(BOOL, w2, true) {
                (Ok(_), w3) => match take_view(BOOL, w3, true) {
                    (Ok(has_icons), w4) => if layout.spec_at_least(FIRST_OPTIONAL_ICONS) && !has_icons {
                        (Ok(()), w4.passed_through())
                    } else {
                        match take_view(VAR_INT, w4, true) {
                            (Ok(count), w5) => match icons_view(w5, run_count(count), layout) {
                                (Ok(_), w6) => (Ok(()), w6.passed_through()),
                                (Err(e), w6) => (Err(e), w6),
                            },
                            (Err(e), w5) => (Err(e), w5),
                        }
                    },
                    (Err(e), w4) => (Err(e), w4),
                },
                (Err(e), w3) => (Err(e), w3),
            },
            (Err(e), w2) => (Err(e), w2),
        },
        (Err(e), w1) => (Err(e), w1),
    }
}

fn display_name(wrapper: &mut PacketWrapper, layout: JavaMinecraftVersion) -> (r: Result<(), TranslateError>)
    ensures
        final(wrapper)@.wf(),
        match display_name_view(old(wrapper)@, layout) {
            (Ok(_), w) => r is Ok && final(wrapper)@ == w,
            (Err(e), w) => r matches Err(x) && x == e && final(wrapper)@ == w,
        },
{
    if layout.at_least(FIRST_NBT_COMPONENT) {
        let present = match take(wrapper, &BOOL, true) {
            Ok(v) => v,
            Err(e) => return Err(e),
        };
        if present { pass_raw_nbt(wrapper, layout) } else { Ok(()) }
    } else {
        match take(wrapper, &OptionalT(STRING), true) {
            Ok(_) => Ok(()),
            Err(e) => Err(e),
        }
    }
}

/// Puts the decorations of a `MAP_ITEM_DATA` in the client's terms.
pub fn map_item_data(wrapper: &mut PacketWrapper, layout: JavaMinecraftVersion) -> (r: Result<(), TranslateError>)
    ensures
        final(wrapper)@.wf(),
        match map_item_data_view(old(wrapper)@, layout) {
            (Ok(_), w) => r is Ok && final(wrapper)@ == w,
            (Err(e), w) => r matches Err(x) && x == e && final(wrapper)@ == w,
        },
{
    if let Err(e) = take(wrapper, &VAR_INT, true) {
        return Err(e);
    }
    if let Err(e) = take(wrapper, &I8, true) {
        return Err(e);
    }
    if let Err(e) = take(wrapper, &BOOL, true) {
        return Err(e);
    }
    let has_icons = match take(wrapper, &BOOL, true) {
        Ok(v) => v,
        Err(e) => return Err(e),
    };
    if layout.at_least(FIRST_OPTIONAL_ICONS) && !has_icons {
        wrapper.passthrough_all();
        return Ok(());
    }
    let count = match take(wrapper, &VAR_INT, true) {
        Ok(v) => v,
        Err(e) => return Err(e),
    };
    let mut left: i32 = if count < 0 { 0 } else { count };
    while left > 0
        invariant
            wrapper@.wf(),
            left >= 0,
            match map_item_data_view(old(wrapper)@, layout) {
                (r, w) => match icons_view(wrapper@, left as nat, layout) {
                    (Ok(_), w6) => r is Ok && w == w6.passed_through(),
                    (Err(e), w6) => r == Err::<(), TranslateError>(e) && w == w6,
                },
            },
        decreases left,
    {
        let icon = match take(wrapper, &VAR_INT, false) {
            Ok(v) => v,
            Err(e) => return Err(e),
        };
        let _ = wrapper.write(&VAR_INT, &decoration(icon, layout));
        if let Err(e) = take(wrapper, &I8, true) {
            return Err(e);
        }
        if let Err(e) = take(wrapper, &I8, true) {
            return Err(e);
        }
        if let Err(e) = take(wrapper, &U8, true) {
            return Err(e);
        }
        if let Err(e) = display_name(wrapper, layout) {
            return Err(e);
        }
        left = left - 1;
    }
    wrapper.passthrough_all();
    Ok(())
}

} // verus!
