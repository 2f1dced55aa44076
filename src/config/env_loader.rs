//! Reading the settings from their text form.
use crate::config::model::EmojiConfig;
use crate::text::{
    parse_i32, parse_i64, parsed_integer, same_text, split, split_on, split_once, split_once_at,
    views,
};
use vstd::prelude::*;

verus! {

/// Why the vote emojis setting was refused.
#[derive(Debug, Clone, PartialEq, Eq)]
pub enum EmojiConfigError {
    /// The setting does not hold exactly five `;`-separated emojis.
    WrongCount,
    /// An emoji is not written `name:id`.
    MissingSeparator,
    /// The id of an emoji, given here, is not an integer.
    InvalidId(String),
}

/// The emoji (name and id) that `piece`, written `name:id`, names, or why
/// it names none.
pub open spec fn emoji_of(piece: Seq<char>) -> Result<(Seq<char>, int), Option<Seq<char>>> {
    match split_once_at(piece, ':') {
        None => Err(None),
        Some((name, id)) => match parsed_integer(id, true, i64::MIN as int, i64::MAX as int) {
            Some(v) => Ok((name, v)),
            None => Err(Some(id)),
        },
    }
}

/// The first of `pieces` that names no emoji, with why.
pub open spec fn first_bad_emoji(pieces: Seq<Seq<char>>) -> Option<Option<Seq<char>>>
    decreases pieces.len(),
{
    if pieces.len() == 0 {
        None
    } else if emoji_of(pieces[0]) is Err {
        Some(emoji_of(pieces[0])->Err_0)
    } else {
        first_bad_emoji(pieces.drop_first())
    }
}

fn parse_emoji(piece: &str) -> (r: Result<EmojiConfig, EmojiConfigError>)
    ensures
        match r {
            Ok(e) => emoji_of(piece@) == Ok::<(Seq<char>, int), Option<Seq<char>>>(
                (e.name@, e.id as int),
            ),
            Err(EmojiConfigError::MissingSeparator) => emoji_of(piece@) == Err::<
                (Seq<char>, int),
                Option<Seq<char>>,
            >(None),
            Err(EmojiConfigError::InvalidId(id)) => emoji_of(piece@) == Err::<
                (Seq<char>, int),
                Option<Seq<char>>,
            >(Some(id@)),
            Err(EmojiConfigError::WrongCount) => false,
        },
{
    match split_once(piece, ':') {
        None => Err(EmojiConfigError::MissingSeparator),
        Some((name, id_text)) => match parse_i64(id_text.as_str()) {
            Some(id) => Ok(EmojiConfig { id, name }),
            None => Err(EmojiConfigError::InvalidId(id_text)),
        },
    }
}

/// The five vote emojis, worst first, that the setting `value` lists as
/// `name:id` pairs separated by `;`.
pub fn parse_voting_emojis_config(value: &str) -> (r: Result<[EmojiConfig; 5], EmojiConfigError>)
    ensures
        split_on(value@, ';').len() != 5 ==> r == Err::<[EmojiConfig; 5], EmojiConfigError>(
            EmojiConfigError::WrongCount,
        ),
        split_on(value@, ';').len() == 5 ==> match r {
            Ok(emojis) => first_bad_emoji(split_on(value@, ';')) is None && forall|i: int|
                0 <= i < 5 ==> emoji_of(#[trigger] split_on(value@, ';')[i]) == Ok::<
                    (Seq<char>, int),
                    Option<Seq<char>>,
                >((emojis@[i].name@, emojis@[i].id as int)),
            Err(EmojiConfigError::MissingSeparator) => first_bad_emoji(split_on(value@, ';'))
                == Some(None::<Seq<char>>),
            Err(EmojiConfigError::InvalidId(id)) => first_bad_emoji(split_on(value@, ';')) == Some(
                Some(id@),
            ),
            Err(EmojiConfigError::WrongCount) => false,
        },
{
    let pieces = split(value, ';');
    if pieces.len() != 5 {
        return Err(EmojiConfigError::WrongCount);
    }
    let ghost ps = views(pieces@);
    let mut emojis: Vec<EmojiConfig> = Vec::new();
    let mut i: usize = 0;
    assert(ps.skip(0) =~= ps);
    while i < 5
        invariant
            i <= 5,
            pieces@.len() == 5,
            ps == views(pieces@),
            ps == split_on(value@, ';'),
            emojis@.len() == i,
            first_bad_emoji(ps.skip(i as int)) == first_bad_emoji(ps),
            forall|k: int|
                0 <= k < i ==> emoji_of(#[trigger] ps[k]) == Ok::<
                    (Seq<char>, int),
                    Option<Seq<char>>,
                >((emojis@[k].name@, emojis@[k].id as int)),
        decreases 5 - i,
    {
        assert(ps.skip(i as int).drop_first() =~= ps.skip(i + 1));
        assert(ps.skip(i as int)[0] == pieces@[i as int]@);
        match parse_emoji(pieces[i].as_str()) {
            Ok(e) => emojis.push(e),
            Err(err) => return Err(err),
        }
        i = i + 1;
    }
    assert(ps.skip(5) =~= Seq::<Seq<char>>::empty());
    Ok(five_of(emojis))
}

fn five_of(v: Vec<EmojiConfig>) -> (r: [EmojiConfig; 5])
    requires
        v@.len() == 5,
    ensures
        r@ == v@,
{
    let ghost all = v@;
    let mut v = v;
    let e4 = v.pop().unwrap();
    let e3 = v.pop().unwrap();
    let e2 = v.pop().unwrap();
    let e1 = v.pop().unwrap();
    let e0 = v.pop().unwrap();
    let r = [e0, e1, e2, e3, e4];
    assert(r@ =~= all);
    r
}

/// The boolean that `value` writes, as `str::parse::<bool>` reads it.
pub open spec fn bool_of(value: Seq<char>) -> Option<bool> {
    if value == "true"@ {
        Some(true)
    } else if value == "false"@ {
        Some(false)
    } else {
        None
    }
}

/// The boolean setting `value`: `true` or `false`.
pub fn parse_bool_config(value: &str) -> (r: Option<bool>)
    ensures
        r == bool_of(value@),
{
    if same_text(value, "true") {
        Some(true)
    } else if same_text(value, "false") {
        Some(false)
    } else {
        None
    }
}

/// The integer setting `value`.
pub fn parse_i32_config(value: &str) -> (r: Option<i32>)
    ensures
        r matches Some(v) ==> parsed_integer(value@, true, i32::MIN as int, i32::MAX as int) == Some(
            v as int,
        ),
        r is None ==> parsed_integer(value@, true, i32::MIN as int, i32::MAX as int) is None,
{
    parse_i32(value)
}

} // verus!
