//! The plain data of WaveJson documents: the parts of signal figures and register figures as
//! they are written in JSON.
use vstd::prelude::*;
use vstd::string::StrSliceExecFns;

use crate::text::{char_is_whitespace, is_whitespace, push_char};

verus! {

/// The data of a signal: one string of whitespace separated fields, or a list of fields.
#[derive(Debug, Clone)]
pub enum SignalData {
    One(String),
    Multiple(Vec<String>),
}

/// The head of a figure: a title and a top cycle enumeration.
#[derive(Debug, Clone)]
pub struct Head {
    pub text: Option<String>,
    pub tick: Option<u32>,
    pub every: Option<u32>,
}

/// The foot of a figure: a footer and a bottom cycle enumeration.
#[derive(Debug, Clone)]
pub struct Foot {
    pub text: Option<String>,
    pub tock: Option<u32>,
    pub every: Option<u32>,
}

/// The configuration of a signal figure.
#[derive(Debug, Clone)]
pub struct Config {
    pub hscale: Option<u16>,
    pub skin: Option<String>,
}

/// A register figure as written in JSON: its fields and its configuration.
#[derive(Debug)]
pub struct RegJson {
    pub reg: Vec<RegItem>,
    pub config: Option<RegJsonConfig>,
}

/// A field of a register: its width in bits, name, attributes and variant.
#[derive(Debug)]
pub struct RegItem {
    pub bits: u32,
    pub name: Option<RegFieldString>,
    pub attr: Option<RegItemAttribute>,
    pub variant: Option<u32>,
}

/// The text of a field: a string or a binary value.
#[derive(Debug)]
pub enum RegFieldString {
    Text(String),
    Binary(u64),
}

/// The configuration of a register figure.
#[derive(Debug)]
pub struct RegJsonConfig {
    pub vspace: Option<u32>,
    pub hspace: Option<u32>,
    pub lanes: Option<u32>,
    pub bits: Option<u32>,
    pub fontsize: Option<u32>,
    pub fontweight: Option<u32>,
    pub fontfamily: Option<u32>,
    pub compact: Option<u32>,
    pub hflip: Option<bool>,
    pub vflip: Option<bool>,
    pub uneven: Option<bool>,
    pub offset: Option<u32>,
}

/// The attributes of a field: one or several.
#[derive(Debug)]
pub enum RegItemAttribute {
    One(RegFieldString),
    Multiple(Vec<RegFieldString>),
}

/// The words of `s` read so far and the word being read: whitespace ends a word, and no word
/// is empty.
pub open spec fn word_state(s: Seq<char>) -> (Seq<Seq<char>>, Seq<char>)
    decreases s.len(),
{
    if s.len() == 0 {
        (Seq::empty(), Seq::empty())
    } else {
        let (done, cur) = word_state(s.drop_last());
        let c = s.last();
        if is_whitespace(c) {
            if cur.len() > 0 {
                (done.push(cur), Seq::empty())
            } else {
                (done, Seq::empty())
            }
        } else {
            (done, cur.push(c))
        }
    }
}

/// The whitespace separated words of `s`, none of them empty.
pub open spec fn words(s: Seq<char>) -> Seq<Seq<char>> {
    let (done, cur) = word_state(s);
    if cur.len() > 0 {
        done.push(cur)
    } else {
        done
    }
}

/// The views of a list of strings.
pub open spec fn string_views(v: Seq<String>) -> Seq<Seq<char>> {
    v.map_values(|x: String| x@)
}

impl SignalData {
    /// The data fields: the whitespace separated words of one string, or the list as it is.
    pub fn fields(self) -> (r: Vec<String>)
        ensures
            match self {
                SignalData::One(s) => string_views(r@) == words(s@),
                SignalData::Multiple(v) => r@ == v@,
            },
    {
        match self {
            SignalData::Multiple(v) => v,
            SignalData::One(s) => {
                let text = s.as_str();
                let n = text.unicode_len();
                let mut done: Vec<String> = Vec::new();
                let mut cur = String::new();
                let mut i: usize = 0;
                while i < n
                    invariant
                        n == text@.len(),
                        i <= n,
                        (string_views(done@), cur@) == word_state(text@.subrange(0, i as int)),
                    decreases n - i,
                {
                    let c = text.get_char(i);
                    let ghost pre = text@.subrange(0, i as int);
                    assert(text@.subrange(0, i + 1).drop_last() =~= pre);
                    if char_is_whitespace(c) {
                        if cur.unicode_len() > 0 {
                            let ghost before = string_views(done@);
                            let mut word = String::new();
                            std::mem::swap(&mut word, &mut cur);
                            done.push(word);
                            assert(string_views(done@) =~= before.push(word@));
                        }
                        assert(cur@ =~= Seq::<char>::empty());
                    } else {
                        push_char(&mut cur, c);
                    }
                    i = i + 1;
                }
                assert(text@.subrange(0, n as int) =~= text@);
                if cur.unicode_len() > 0 {
                    let ghost before = string_views(done@);
                    done.push(cur);
                    assert(string_views(done@) =~= before.push(word_state(text@).1));
                }
                done
            },
        }
    }
}

} // verus!
