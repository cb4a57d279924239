//! The argument parsers of a `COMMANDS` tree, renumbered for the client; a
//! parser the client does not know becomes a single word string.

use vstd::prelude::*;
use crate::api::TranslateError;
use crate::api::rewriter::chat::{take, take_view};
use crate::api::rewriter::item::{map_id, mapped_id};
use crate::api::rewriter::particle::{pass_n, pass_times};
use crate::api::types::{WireType, I32, I64, STRING, U8, VAR_INT};
use crate::api::wrapper::{PacketWrapper, WrapperView};
use crate::data::mappings::ComposedMappings;
use crate::packet::chunk_legacy::run_count;
use crate::version::JavaMinecraftVersion;

verus! {

/// 1.19 replaced the parser identifier with an id; core writes the older
/// form itself.
pub const FIRST_PARSER_ID: JavaMinecraftVersion = JavaMinecraftVersion::V_1_19;

/// 1.19.4 gave `minecraft:time` a minimum.
pub const FIRST_TIME_MINIMUM: JavaMinecraftVersion = JavaMinecraftVersion::V_1_19_4;

/// The parser of a plain string argument.
pub const STRING_PARSER: i32 = 5;

/// Core numbers its argument types as 26.2 does, where dialog is 55 and uuid
/// 56; the newest registry has them at 58 and 61.
pub open spec fn spec_native(parser: i32) -> i32 {
    if parser == 55 { 58 } else if parser == 56 { 61 } else { parser }
}

/// The newest protocol's number for a parser core wrote.
pub fn native(parser: i32) -> (r: i32)
    ensures
        r == spec_native(parser),
{
    if parser == 55 { 58 } else if parser == 56 { 61 } else { parser }
}

/// What copying, or reading past, a bounded number's properties does: its
/// flags, then its minimum and its maximum where the flags say so.
pub open spec fn number_view<T: WireType>(t: T, w: WrapperView, keep: bool) -> (Result<(), TranslateError>, WrapperView) {
    match take_view(U8, w, keep) {
        (Ok(flags), w1) => match (if flags % 2 == 1 { copy_view(t, w1, keep) } else { (Ok(()), w1) }) {
            (Ok(_), w2) => if (flags / 2) % 2 == 1 {
                copy_view(t, w2, keep)
            } else {
                (Ok(()), w2)
            },
            (Err(e), w2) => (Err(e), w2),
        },
        (Err(e), w1) => (Err(e), w1),
    }
}

/// What copying a `t`, or reading past it, does to a wrapper.
pub open spec fn copy_view<T: WireType>(t: T, w: WrapperView, keep: bool) -> (Result<(), TranslateError>, WrapperView) {
    match take_view(t, w, keep) {
        (Ok(_), w1) => (Ok(()), w1),
        (Err(e), w1) => (Err(e), w1),
    }
}

/// What copying a parser's properties does to a wrapper, or reading past
/// them where the client gets a plain string instead. The bounded numbers
/// carry floats and doubles as their bits.
pub open spec fn properties_view(w: WrapperView, parser: i32, layout: JavaMinecraftVersion, keep: bool)
    -> (Result<(), TranslateError>, WrapperView)
{
    if parser == 1 || parser == 3 {
        number_view(I32, w, keep)
    } else if parser == 2 || parser == 4 {
        number_view(I64, w, keep)
    } else if parser == STRING_PARSER {
        copy_view(VAR_INT, w, keep)
    } else if parser == 6 || parser == 31 {
        copy_view(U8, w, keep)
    } else if parser == 43 && layout.spec_at_least(FIRST_TIME_MINIMUM) {
        copy_view(I32, w, keep)
    } else if 44 <= parser <= 47 {
        copy_view(STRING, w, keep)
    } else {
        (Ok(()), w)
    }
}

fn copy<T: WireType>(wrapper: &mut PacketWrapper, t: &T, keep: bool) -> (r: Result<(), TranslateError>)
    ensures
        final(wrapper)@.wf(),
        match copy_view(*t, old(wrapper)@, keep) {
            (Ok(_), w) => r is Ok && final(wrapper)@ == w,
            (Err(e), w) => r matches Err(x) && x == e && final(wrapper)@ == w,
        },
{
    match take(wrapper, t, keep) {
        Ok(_) => Ok(()),
        Err(e) => Err(e),
    }
}

fn number<T: WireType>(wrapper: &mut PacketWrapper, t: &T, keep: bool) -> (r: Result<(), TranslateError>)
    ensures
        final(wrapper)@.wf(),
        match number_view(*t, old(wrapper)@, keep) {
            (Ok(_), w) => r is Ok && final(wrapper)@ == w,
            (Err(e), w) => r matches Err(x) && x == e && final(wrapper)@ == w,
        },
{
    let flags = match take(wrapper, &U8, keep) {
        Ok(v) => v,
        Err(e) => return Err(e),
    };
    if flags % 2 == 1 {
        if let Err(e) = take(wrapper, t, keep) {
            return Err(e);
        }
    }
    if (flags / 2) % 2 == 1 {
        if let Err(e) = take(wrapper, t, keep) {
            return Err(e);
        }
    }
    Ok(())
}

/// Copies a parser's properties, or reads past them.
fn properties(wrapper: &mut PacketWrapper, parser: i32, layout: JavaMinecraftVersion, keep: bool)
    -> (r: Result<(), TranslateError>)
    ensures
        final(wrapper)@.wf(),
        match properties_view(old(wrapper)@, parser, layout, keep) {
            (Ok(_), w) => r is Ok && final(wrapper)@ == w,
            (Err(e), w) => r matches Err(x) && x == e && final(wrapper)@ == w,
        },
{
    if parser == 1 || parser == 3 {
        number(wrapper, &I32, keep)
    } else if parser == 2 || parser == 4 {
        number(wrapper, &I64, keep)
    } else if parser == STRING_PARSER {
        copy(wrapper, &VAR_INT, keep)
    } else if parser == 6 || parser == 31 {
        copy(wrapper, &U8, keep)
    } else if parser == 43 && layout.at_least(FIRST_TIME_MINIMUM) {
        copy(wrapper, &I32, keep)
    } else if 44 <= parser && parser <= 47 {
        copy(wrapper, &STRING, keep)
    } else {
        let _ = wrapper.packet();
        Ok(())
    }
}

/// The parser of an argument node for the client: its number, and whether
/// its properties are kept. One the client lacks, or knows only as the
/// string parser, becomes a single word string.
pub open spec fn parser_for(parser: i32, ids: &ComposedMappings, string_parser: i32) -> (i32, bool) {
    match map_id(ids.argumenttypes, parser) {
        Some(m) => (m, m != string_parser || parser == STRING_PARSER),
        None => (string_parser, parser == STRING_PARSER),
    }
}

/// An argument node's parser and properties.
pub open spec fn argument_view(w: WrapperView, layout: JavaMinecraftVersion, ids: &ComposedMappings, string_parser: i32)
    -> (Result<(), TranslateError>, WrapperView)
{
    match take_view(VAR_INT, w, false) {
        (Ok(raw), w1) => {
            let parser = spec_native(raw);
            let (mapped, keep) = parser_for(parser, ids, string_parser);
            match properties_view(w1.written(VAR_INT.encode(mapped)), parser, layout, keep) {
                (Ok(_), w2) => (Ok(()), if keep { w2 } else { w2.written(VAR_INT.encode(0)) }),
                (Err(e), w2) => (Err(e), w2),
            }
        },
        (Err(e), w1) => (Err(e), w1),
    }
}

/// One node of the tree: its flags, children and redirect, its name, its
/// parser where it is an argument, and its suggestion type.
pub open spec fn node_view(w: WrapperView, layout: JavaMinecraftVersion, ids: &ComposedMappings, string_parser: i32)
    -> (Result<(), TranslateError>, WrapperView)
{
    match take_view(U8, w, true) {
        (Ok(flags), w1) => match take_view(VAR_INT, w1, true) {
            (Ok(children), w2) => match pass_times(VAR_INT, w2, run_count(children)) {
                (Ok(_), w3) => match (if (flags / 8) % 2 == 1 { copy_view(VAR_INT, w3, true) } else { (Ok(()), w3) }) {
                    (Ok(_), w4) => {
                        let node_type = flags % 4;
                        match (if node_type == 1 || node_type == 2 { copy_view(STRING, w4, true) } else { (Ok(()), w4) }) {
                            (Ok(_), w5) => match (if node_type == 2 { argument_view(w5, layout, ids, string_parser) } else { (Ok(()), w5) }) {
                                (Ok(_), w6) => if (flags / 16) % 2 == 1 { copy_view(STRING, w6, true) } else { (Ok(()), w6) },
                                (Err(e), w6) => (Err(e), w6),
                            },
                            (Err(e), w5) => (Err(e), w5),
                        }
                    },
                    (Err(e), w4) => (Err(e), w4),
                },
                (Err(e), w3) => (Err(e), w3),
            },
            (Err(e), w2) => (Err(e), w2),
        },
        (Err(e), w1) => (Err(e), w1),
    }
}

/// `n` nodes of the tree.
pub open spec fn nodes_view(w: WrapperView, n: nat, layout: JavaMinecraftVersion, ids: &ComposedMappings, string_parser: i32)
    -> (Result<(), TranslateError>, WrapperView)
    decreases n,
{
    if n == 0 {
        (Ok(()), w)
    } else {
        match node_view(w, layout, ids, string_parser) {
            (Ok(_), w1) => nodes_view(w1, (n - 1) as nat, layout, ids, string_parser),
            (Err(e), w1) => (Err(e), w1),
        }
    }
}

/// What `commands` does to a wrapper: below 1.19 the tree is copied; from
/// it every node is copied with its parser renumbered, and the root index
/// after the nodes. A client with no string parser cannot be told the tree.
pub open spec fn commands_view(w: WrapperView, layout: JavaMinecraftVersion, ids: &ComposedMappings)
    -> (Result<(), TranslateError>, WrapperView)
{
    if !layout.spec_at_least(FIRST_PARSER_ID) {
        (Ok(()), w.passed_through())
    } else {
        match map_id(ids.argumenttypes, STRING_PARSER) {
            Some(string_parser) => match take_view(VAR_INT, w, true) {
                (Ok(nodes), w1) => match nodes_view(w1, run_count(nodes), layout, ids, string_parser) {
                    (Ok(_), w2) => copy_view(VAR_INT, w2, true),
                    (Err(e), w2) => (Err(e), w2),
                },
                (Err(e), w1) => (Err(e), w1),
            },
            None => (Err(TranslateError::Unsupported("string argument type")), w),
        }
    }
}

fn argument(wrapper: &mut PacketWrapper, layout: JavaMinecraftVersion, ids: &ComposedMappings, string_parser: i32)
    -> (r: Result<(), TranslateError>)
    ensures
        final(wrapper)@.wf(),
        match argument_view(old(wrapper)@, layout, ids, string_parser) {
            (Ok(_), w) => r is Ok && final(wrapper)@ == w,
            (Err(e), w) => r matches Err(x) && x == e && final(wrapper)@ == w,
        },
{
    let raw = match take(wrapper, &VAR_INT, false) {
        Ok(v) => v,
        Err(e) => return Err(e),
    };
    let parser = native(raw);
    let (mapped, keep) = match mapped_id(&ids.argumenttypes, parser) {
        Some(m) => (m, m != string_parser || parser == STRING_PARSER),
        None => (string_parser, parser == STRING_PARSER),
    };
    let _ = wrapper.write(&VAR_INT, &mapped);
    if let Err(e) = properties(wrapper, parser, layout, keep) {
        return Err(e);
    }
    if !keep {
        let _ = wrapper.write(&VAR_INT, &0);
    }
    Ok(())
}

fn node(wrapper: &mut PacketWrapper, layout: JavaMinecraftVersion, ids: &ComposedMappings, string_parser: i32)
    -> (r: Result<(), TranslateError>)
    ensures
        final(wrapper)@.wf(),
        match node_view(old(wrapper)@, layout, ids, string_parser) {
            (Ok(_), w) => r is Ok && final(wrapper)@ == w,
            (Err(e), w) => r matches Err(x) && x == e && final(wrapper)@ == w,
        },
{
    let flags = match take(wrapper, &U8, true) {
        Ok(v) => v,
        Err(e) => return Err(e),
    };
    let children = match take(wrapper, &VAR_INT, true) {
        Ok(v) => v,
        Err(e) => return Err(e),
    };
    let n: u64 = if children < 0 { 0 } else { children as u64 };
    if let Err(e) = pass_n(wrapper, &VAR_INT, n) {
        return Err(e);
    }
    if (flags / 8) % 2 == 1 {
        if let Err(e) = copy(wrapper, &VAR_INT, true) {
            return Err(e);
        }
    }
    let node_type = flags % 4;
    if node_type == 1 || node_type == 2 {
        if let Err(e) = copy(wrapper, &STRING, true) {
            return Err(e);
        }
    }
    if node_type == 2 {
        if let Err(e) = argument(wrapper, layout, ids, string_parser) {
            return Err(e);
        }
    }
    if (flags / 16) % 2 == 1 {
        return copy(wrapper, &STRING, true);
    }
    Ok(())
}

/// Renumbers the argument parsers of a `COMMANDS` tree.
pub fn commands(wrapper: &mut PacketWrapper, layout: JavaMinecraftVersion, ids: &ComposedMappings)
    -> (r: Result<(), TranslateError>)
    ensures
        final(wrapper)@.wf(),
        match commands_view(old(wrapper)@, layout, ids) {
            (Ok(_), w) => r is Ok && final(wrapper)@ == w,
            (Err(e), w) => r matches Err(x) && x == e && final(wrapper)@ == w,
        },
{
    if !layout.at_least(FIRST_PARSER_ID) {
        wrapper.passthrough_all();
        return Ok(());
    }
    let string_parser = match mapped_id(&ids.argumenttypes, STRING_PARSER) {
        Some(m) => m,
        None => {
            let _ = wrapper.packet();
            return Err(TranslateError::Unsupported("string argument type"));
        },
    };
    let nodes = match take(wrapper, &VAR_INT, true) {
        Ok(v) => v,
        Err(e) => return Err(e),
    };
    let mut left: i32 = if nodes < 0 { 0 } else { nodes };
    while left > 0
        invariant
            wrapper@.wf(),
            left >= 0,
            match commands_view(old(wrapper)@, layout, ids) {
                (r, w) => match nodes_view(wrapper@, left as nat, layout, ids, string_parser) {
                    (Ok(_), w2) => (r, w) == copy_view(VAR_INT, w2, true),
                    (Err(e), w2) => r == Err::<(), TranslateError>(e) && w == w2,
                },
            },
        decreases left,
    {
        if let Err(e) = node(wrapper, layout, ids, string_parser) {
            return Err(e);
        }
        left = left - 1;
    }
    copy(wrapper, &VAR_INT, true)
}

} // verus!
