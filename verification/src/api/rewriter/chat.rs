//! The pieces of the chat packets that change shape on the way down: the
//! signed head of a player message, its filter mask, the chat type holder and
//! the signature of a deleted message, and the decoration a message needs once
//! it travels as a system one.

use vstd::prelude::*;
use crate::api::TranslateError;
use crate::api::types::{
    WireType, FixedBytesT, BitSetT, BoolT, ByteArrayT, I64T, StringT, UuidT, VarIntT,
    BIT_SET, BOOL, BYTE_ARRAY, I64, STRING, UUID, VAR_INT,
};
use crate::api::wrapper::{PacketWrapper, WrapperView};

verus! {

/// A message signature: 256 bytes with no length in front.
pub open spec fn signature() -> FixedBytesT {
    FixedBytesT(256)
}

/// The most entries a last seen list may have.
pub const MAX_LAST_SEEN: i32 = 20;

/// What reading a `t` does to a wrapper, and writing it back where `keep`:
/// the value or the error, and the wrapper afterwards.
pub open spec fn take_view<T: WireType>(t: T, w: WrapperView, keep: bool)
    -> (Result<<T::Value as DeepView>::V, TranslateError>, WrapperView)
{
    match t.parse(w.remaining()) {
        Some((v, n)) => if !keep {
            (Ok(v), w.consumed(n))
        } else if t.writable(v) {
            (Ok(v), w.consumed(n).written(t.encode(v)))
        } else {
            (Err(TranslateError::Write), w.consumed(n))
        },
        None => (Err(TranslateError::Read), w),
    }
}

/// Reads a `t`, and writes it back where `keep`.
pub fn take<T: WireType>(wrapper: &mut PacketWrapper, t: &T, keep: bool) -> (r: Result<T::Value, TranslateError>)
    ensures
        final(wrapper)@.wf(),
        match take_view(*t, old(wrapper)@, keep) {
            (Ok(v), w) => r matches Ok(x) && x.deep_view() == v && final(wrapper)@ == w,
            (Err(e), w) => r matches Err(x) && x == e && final(wrapper)@ == w,
        },
{
    if keep {
        wrapper.passthrough(t)
    } else {
        wrapper.read(t)
    }
}

/// The last seen entries of a player message, `n` of them: an id each, and a
/// whole signature after an id of zero.
pub open spec fn last_seen_view(w: WrapperView, n: nat, keep: bool) -> (Result<(), TranslateError>, WrapperView)
    decreases n,
{
    if n == 0 {
        (Ok(()), w)
    } else {
        match take_view(VAR_INT, w, keep) {
            (Ok(id), w1) => if id == 0 {
                match take_view(signature(), w1, keep) {
                    (Ok(_), w2) => last_seen_view(w2, (n - 1) as nat, keep),
                    (Err(e), w2) => (Err(e), w2),
                }
            } else {
                last_seen_view(w1, (n - 1) as nat, keep)
            },
            (Err(e), w1) => (Err(e), w1),
        }
    }
}

/// The fields of a player message after its signed text: timestamp, salt and
/// the last seen list, whose count must lie in `0..=MAX_LAST_SEEN`.
pub open spec fn signed_tail_view(w: WrapperView, keep: bool) -> (Result<(), TranslateError>, WrapperView) {
    match take_view(I64, w, keep) {
        (Ok(_), w1) => match take_view(I64, w1, keep) {
            (Ok(_), w2) => match take_view(VAR_INT, w2, keep) {
                (Ok(previous), w3) => if 0 <= previous <= MAX_LAST_SEEN {
                    last_seen_view(w3, previous as nat, keep)
                } else {
                    (Err(TranslateError::Unsupported("last seen count")), w3)
                },
                (Err(e), w3) => (Err(e), w3),
            },
            (Err(e), w2) => (Err(e), w2),
        },
        (Err(e), w1) => (Err(e), w1),
    }
}

/// Everything a player message carries before its unsigned content: sender,
/// index, an optional signature, the signed text and `signed_tail_view`.
pub open spec fn signed_head_view(w: WrapperView, keep: bool) -> (Result<Seq<u8>, TranslateError>, WrapperView) {
    match take_view(UUID, w, keep) {
        (Ok(_), w1) => match take_view(VAR_INT, w1, keep) {
            (Ok(_), w2) => match take_view(BOOL, w2, keep) {
                (Ok(signed), w3) => {
                    let (sig, w4) = if signed {
                        match take_view(signature(), w3, keep) {
                            (Ok(_), w4) => (Ok(()), w4),
                            (Err(e), w4) => (Err(e), w4),
                        }
                    } else {
                        (Ok(()), w3)
                    };
                    match sig {
                        Ok(_) => match take_view(STRING, w4, keep) {
                            (Ok(plain), w5) => match signed_tail_view(w5, keep) {
                                (Ok(_), w6) => (Ok(plain), w6),
                                (Err(e), w6) => (Err(e), w6),
                            },
                            (Err(e), w5) => (Err(e), w5),
                        },
                        Err(e) => (Err(e), w4),
                    }
                },
                (Err(e), w3) => (Err(e), w3),
            },
            (Err(e), w2) => (Err(e), w2),
        },
        (Err(e), w1) => (Err(e), w1),
    }
}

fn last_seen(wrapper: &mut PacketWrapper, previous: i32, keep: bool) -> (r: Result<(), TranslateError>)
    requires
        0 <= previous <= MAX_LAST_SEEN,
        old(wrapper)@.wf(),
    ensures
        final(wrapper)@.wf(),
        match last_seen_view(old(wrapper)@, previous as nat, keep) {
            (Ok(_), w) => r is Ok && final(wrapper)@ == w,
            (Err(e), w) => r matches Err(x) && x == e && final(wrapper)@ == w,
        },
{
    let sig = FixedBytesT(256);
    let ghost start = wrapper@;
    let mut left = previous;
    while left > 0
        invariant
            0 <= left <= previous,
            wrapper@.wf(),
            sig == signature(),
            start == old(wrapper)@,
            last_seen_view(start, previous as nat, keep) == last_seen_view(wrapper@, left as nat, keep),
        decreases left,
    {
        let id = match take(wrapper, &VAR_INT, keep) {
            Ok(v) => v,
            Err(e) => return Err(e),
        };
        if id == 0 {
            if let Err(e) = take(wrapper, &sig, keep) {
                return Err(e);
            }
        }
        left = left - 1;
    }
    Ok(())
}

fn signed_tail(wrapper: &mut PacketWrapper, keep: bool) -> (r: Result<(), TranslateError>)
    ensures
        final(wrapper)@.wf(),
        match signed_tail_view(old(wrapper)@, keep) {
            (Ok(_), w) => r is Ok && final(wrapper)@ == w,
            (Err(e), w) => r matches Err(x) && x == e && final(wrapper)@ == w,
        },
{
    if let Err(e) = take(wrapper, &I64, keep) {
        return Err(e);
    }
    if let Err(e) = take(wrapper, &I64, keep) {
        return Err(e);
    }
    let previous = match take(wrapper, &VAR_INT, keep) {
        Ok(v) => v,
        Err(e) => return Err(e),
    };
    if previous < 0 || previous > MAX_LAST_SEEN {
        return Err(TranslateError::Unsupported("last seen count"));
    }
    last_seen(wrapper, previous, keep)
}

/// Everything a `PLAYER_CHAT` carries before its unsigned content, giving the
/// signed text. `keep` writes it all back; a message turned into a system one
/// drops it.
pub fn signed_head(wrapper: &mut PacketWrapper, keep: bool) -> (r: Result<Vec<u8>, TranslateError>)
    ensures
        final(wrapper)@.wf(),
        match signed_head_view(old(wrapper)@, keep) {
            (Ok(plain), w) => r matches Ok(x) && x@ == plain && final(wrapper)@ == w,
            (Err(e), w) => r matches Err(x) && x == e && final(wrapper)@ == w,
        },
{
    let sig = FixedBytesT(256);
    if let Err(e) = take(wrapper, &UUID, keep) {
        return Err(e);
    }
    if let Err(e) = take(wrapper, &VAR_INT, keep) {
        return Err(e);
    }
    let signed = match take(wrapper, &BOOL, keep) {
        Ok(v) => v,
        Err(e) => return Err(e),
    };
    if signed {
        if let Err(e) = take(wrapper, &sig, keep) {
            return Err(e);
        }
    }
    let plain = match take(wrapper, &STRING, keep) {
        Ok(v) => v,
        Err(e) => return Err(e),
    };
    proof { crate::api::types::lemma_bytes_deep_view(plain); }
    if let Err(e) = signed_tail(wrapper, keep) {
        return Err(e);
    }
    Ok(plain)
}

/// The filter mask of a player message: its kind, and a bit set after a
/// partial filter, kind two.
pub open spec fn filter_mask_view(w: WrapperView, keep: bool) -> (Result<(), TranslateError>, WrapperView) {
    match take_view(VAR_INT, w, keep) {
        (Ok(kind), w1) => if kind == 2 {
            match take_view(BIT_SET, w1, keep) {
                (Ok(_), w2) => (Ok(()), w2),
                (Err(e), w2) => (Err(e), w2),
            }
        } else {
            (Ok(()), w1)
        },
        (Err(e), w1) => (Err(e), w1),
    }
}

/// Reads the filter mask of a player message, and writes it back where `keep`.
pub fn filter_mask(wrapper: &mut PacketWrapper, keep: bool) -> (r: Result<(), TranslateError>)
    ensures
        final(wrapper)@.wf(),
        match filter_mask_view(old(wrapper)@, keep) {
            (Ok(_), w) => r is Ok && final(wrapper)@ == w,
            (Err(e), w) => r matches Err(x) && x == e && final(wrapper)@ == w,
        },
{
    let kind = match take(wrapper, &VAR_INT, keep) {
        Ok(v) => v,
        Err(e) => return Err(e),
    };
    if kind == 2 {
        if let Err(e) = take(wrapper, &BIT_SET, keep) {
            return Err(e);
        }
    }
    Ok(())
}

/// Copies the chat type across, unwrapping the holder 1.21 introduced: a
/// registry id is written one less; an inline entry, holder zero or less, has
/// no id an older client could resolve.
pub fn chat_type_to_id(wrapper: &mut PacketWrapper) -> (r: Result<(), TranslateError>)
    ensures
        final(wrapper)@.wf(),
        match VAR_INT.parse(old(wrapper)@.remaining()) {
            Some((holder, n)) => if holder <= 0 {
                r == Err::<(), TranslateError>(TranslateError::Unsupported("inline chat type"))
                    && final(wrapper)@ == old(wrapper)@.consumed(n)
            } else {
                r is Ok && final(wrapper)@ == old(wrapper)@.consumed(n).written(VAR_INT.encode((holder - 1) as i32))
            },
            None => r == Err::<(), TranslateError>(TranslateError::Read) && final(wrapper)@ == old(wrapper)@,
        },
{
    let holder = match wrapper.read(&VAR_INT) {
        Ok(v) => v,
        Err(e) => return Err(e),
    };
    if holder <= 0 {
        return Err(TranslateError::Unsupported("inline chat type"));
    }
    wrapper.write(&VAR_INT, &(holder - 1))
}

/// The 1.19.2 `DELETE_CHAT` body: the whole signature as a length prefixed
/// array. A packed id, anything but zero, refers to a cache the client keeps
/// under a scheme 1.19.2 does not have.
pub fn delete_chat_to_1_19_1(wrapper: &mut PacketWrapper) -> (r: Result<(), TranslateError>)
    ensures
        final(wrapper)@.wf(),
        match VAR_INT.parse(old(wrapper)@.remaining()) {
            Some((id, n)) => if id != 0 {
                r == Err::<(), TranslateError>(TranslateError::Unsupported("packed signature id"))
                    && final(wrapper)@ == old(wrapper)@.consumed(n)
            } else {
                match signature().parse(old(wrapper)@.consumed(n).remaining()) {
                    Some((sig, m)) => if BYTE_ARRAY.writable(sig) {
                        r is Ok && final(wrapper)@ == old(wrapper)@.consumed(n).consumed(m).written(BYTE_ARRAY.encode(sig))
                    } else {
                        r == Err::<(), TranslateError>(TranslateError::Write)
                            && final(wrapper)@ == old(wrapper)@.consumed(n).consumed(m)
                    },
                    None => r == Err::<(), TranslateError>(TranslateError::Read)
                        && final(wrapper)@ == old(wrapper)@.consumed(n),
                }
            },
            None => r == Err::<(), TranslateError>(TranslateError::Read) && final(wrapper)@ == old(wrapper)@,
        },
{
    let id = match wrapper.read(&VAR_INT) {
        Ok(v) => v,
        Err(e) => return Err(e),
    };
    if id != 0 {
        return Err(TranslateError::Unsupported("packed signature id"));
    }
    let sig = FixedBytesT(256);
    let bytes = match wrapper.read(&sig) {
        Ok(v) => v,
        Err(e) => return Err(e),
    };
    wrapper.write(&BYTE_ARRAY, &bytes)
}

/// Who fills one argument of a chat decoration.
#[derive(Clone, Copy, Debug, PartialEq, Eq, Structural)]
pub enum Parameter {
    Sender,
    Target,
    Content,
}

/// The translation key of each entry of the newest `chat_type` registry, in
/// the order the server numbers them: chat, emote, the two message commands,
/// say, the two team message commands and raw.
pub open spec fn decoration_key(chat_type: i32) -> Option<Seq<char>> {
    if chat_type == 0 { Some("chat.type.text"@) }
    else if chat_type == 1 { Some("chat.type.emote"@) }
    else if chat_type == 2 { Some("commands.message.display.incoming"@) }
    else if chat_type == 3 { Some("commands.message.display.outgoing"@) }
    else if chat_type == 4 { Some("chat.type.announcement"@) }
    else if chat_type == 5 { Some("chat.type.team.text"@) }
    else if chat_type == 6 { Some("chat.type.team.sent"@) }
    else if chat_type == 7 { Some("%s"@) }
    else { None }
}

/// The arguments of the decoration of each chat type, in order.
pub open spec fn decoration_parameters(chat_type: i32) -> Seq<Parameter> {
    if chat_type == 3 {
        seq![Parameter::Target, Parameter::Content]
    } else if chat_type == 5 || chat_type == 6 {
        seq![Parameter::Target, Parameter::Sender, Parameter::Content]
    } else if chat_type == 7 {
        seq![Parameter::Content]
    } else {
        seq![Parameter::Sender, Parameter::Content]
    }
}

/// The value that fills `parameter`.
pub open spec fn argument<T>(parameter: Parameter, sender: T, target: T, content: T) -> T {
    match parameter {
        Parameter::Sender => sender,
        Parameter::Target => target,
        Parameter::Content => content,
    }
}

/// A translated message: its key and its arguments.
pub struct Decoration<T> {
    pub key: &'static str,
    pub with: Vec<T>,
}

/// Applies the decoration of `chat_type`, which a client below 1.19.3 cannot
/// do for a message it receives as a system one. A missing target is filled
/// with `empty`; a chat type the registry does not have is refused.
pub fn decorate<T>(chat_type: i32, sender: T, target: Option<T>, content: T, empty: T)
    -> (r: Result<Decoration<T>, TranslateError>)
    ensures
        match decoration_key(chat_type) {
            Some(key) => r matches Ok(d) && d.key@ == key
                && d.with@ == decoration_parameters(chat_type).map_values(|p: Parameter|
                    argument(p, sender, match target { Some(t) => t, None => empty }, content)),
            None => r matches Err(e) && e == TranslateError::Unsupported("chat type"),
        },
{
    let target = match target {
        Some(t) => t,
        None => empty,
    };
    let r = if chat_type == 0 {
        Decoration { key: "chat.type.text", with: vec![sender, content] }
    } else if chat_type == 1 {
        Decoration { key: "chat.type.emote", with: vec![sender, content] }
    } else if chat_type == 2 {
        Decoration { key: "commands.message.display.incoming", with: vec![sender, content] }
    } else if chat_type == 3 {
        Decoration { key: "commands.message.display.outgoing", with: vec![target, content] }
    } else if chat_type == 4 {
        Decoration { key: "chat.type.announcement", with: vec![sender, content] }
    } else if chat_type == 5 {
        Decoration { key: "chat.type.team.text", with: vec![target, sender, content] }
    } else if chat_type == 6 {
        Decoration { key: "chat.type.team.sent", with: vec![target, sender, content] }
    } else if chat_type == 7 {
        Decoration { key: "%s", with: vec![content] }
    } else {
        return Err(TranslateError::Unsupported("chat type"));
    };
    assert(r.with@ =~= decoration_parameters(chat_type).map_values(|p: Parameter| argument(p, sender, target, content)));
    Ok(r)
}


/// A decoration's arguments follow its translation key: chat, emote, an
/// incoming message and an announcement name the sender then the content,
/// an outgoing message the target then the content, a team message the
/// team, the sender and the content, and a raw message the content alone.
pub proof fn law_decoration_follows_its_key<T>(chat_type: i32, sender: T, target: T, content: T)
    ensures
        decoration_key(chat_type) == Some("chat.type.text"@)
            || decoration_key(chat_type) == Some("chat.type.emote"@)
            || decoration_key(chat_type) == Some("commands.message.display.incoming"@)
            || decoration_key(chat_type) == Some("chat.type.announcement"@)
            ==> decoration_parameters(chat_type).map_values(|p: Parameter| argument(p, sender, target, content))
                == seq![sender, content],
        decoration_key(chat_type) == Some("commands.message.display.outgoing"@)
            ==> decoration_parameters(chat_type).map_values(|p: Parameter| argument(p, sender, target, content))
                == seq![target, content],
        decoration_key(chat_type) == Some("chat.type.team.text"@)
            || decoration_key(chat_type) == Some("chat.type.team.sent"@)
            ==> decoration_parameters(chat_type).map_values(|p: Parameter| argument(p, sender, target, content))
                == seq![target, sender, content],
        decoration_key(chat_type) == Some("%s"@)
            ==> decoration_parameters(chat_type).map_values(|p: Parameter| argument(p, sender, target, content))
                == seq![content],
{
    reveal_strlit("chat.type.text");
    reveal_strlit("chat.type.emote");
    reveal_strlit("commands.message.display.incoming");
    reveal_strlit("commands.message.display.outgoing");
    reveal_strlit("chat.type.announcement");
    reveal_strlit("chat.type.team.text");
    reveal_strlit("chat.type.team.sent");
    reveal_strlit("%s");
    assert("chat.type.text"@.len() == 14);
    assert("chat.type.emote"@.len() == 15);
    assert("commands.message.display.incoming"@.len() == 33);
    assert("commands.message.display.outgoing"@.len() == 33);
    assert("chat.type.announcement"@.len() == 22);
    assert("chat.type.team.text"@.len() == 19);
    assert("chat.type.team.sent"@.len() == 19);
    assert("%s"@.len() == 2);
    assert("commands.message.display.incoming"@[25] != "commands.message.display.outgoing"@[25]);
    assert("chat.type.team.text"@[15] != "chat.type.team.sent"@[15]);
    let args = decoration_parameters(chat_type).map_values(|p: Parameter| argument(p, sender, target, content));
    if 0 <= chat_type <= 7 {
        if chat_type == 3 {
            assert(args =~= seq![target, content]);
        } else if chat_type == 5 || chat_type == 6 {
            assert(args =~= seq![target, sender, content]);
        } else if chat_type == 7 {
            assert(args =~= seq![content]);
        } else {
            assert(args =~= seq![sender, content]);
        }
    }
}

} // verus!
