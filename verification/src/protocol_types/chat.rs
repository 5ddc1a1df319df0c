use crate::encryption::hex_digit;
use crate::protocol_types::traits::{Prot, SizedProt, WriteProt};
use vstd::prelude::*;
use vstd::string::StringExecFns;

verus! {

/// How a character stands inside a JSON string literal: the double quote
/// and the backslash behind a backslash; backspace, form feed, newline,
/// return and tab as a backslash and a letter; every other character below
/// the space as `\u00` and two hexadecimal digits; every other character
/// as it is.
pub open spec fn json_char(c: char) -> Seq<char> {
    if c == '"' {
        "\\\""@
    } else if c == '\\' {
        "\\\\"@
    } else if c as u32 == 0x08 {
        "\\b"@
    } else if c as u32 == 0x0c {
        "\\f"@
    } else if c as u32 == 0x0a {
        "\\n"@
    } else if c as u32 == 0x0d {
        "\\r"@
    } else if c as u32 == 0x09 {
        "\\t"@
    } else if (c as u32) < 0x20 {
        "\\u00"@ + seq![hex_digit((c as u32 / 16) as nat), hex_digit((c as u32 % 16) as nat)]
    } else {
        seq![c]
    }
}

/// The characters of `text` as they stand inside a JSON string literal.
pub open spec fn json_escaped(text: Seq<char>) -> Seq<char>
    decreases text.len(),
{
    if text.len() == 0 {
        Seq::empty()
    } else {
        json_escaped(text.drop_last()) + json_char(text.last())
    }
}

/// The JSON string literal that stands for `text`: its characters between
/// double quotes, with what JSON cannot hold as it is written as escapes.
pub open spec fn json_string(text: Seq<char>) -> Seq<char> {
    "\""@ + json_escaped(text) + "\""@
}

/// `serde_json::to_string` on a string: its JSON string literal. Writing a
/// string into memory cannot fail.
#[verifier::external_body]
fn json_quote(text: &str) -> (r: String)
    ensures
        r@ == json_string(text@),
{
    serde_json::to_string(text).unwrap()
}

/// A piece of chat: a text, how it is to look, and the pieces that follow
/// it, each held as the JSON object it was when it was added.
#[derive(Debug)]
pub struct Chat {
    pub text: String,
    pub bold: Option<bool>,
    pub italic: Option<bool>,
    pub underlined: Option<bool>,
    pub strikethrough: Option<bool>,
    pub obfuscated: Option<bool>,
    pub color: Option<String>,
    pub extra: Vec<String>,
}

/// The member `"key":true` or `"key":false` with a comma behind it, or
/// nothing where the flag is not set.
pub open spec fn flag_member(key: Seq<char>, flag: Option<bool>) -> Seq<char> {
    match flag {
        Some(on) => "\""@ + key + "\":"@ + (if on {
            "true"@
        } else {
            "false"@
        }) + ","@,
        None => Seq::empty(),
    }
}

/// The objects of `items` with commas between them.
pub open spec fn joined(items: Seq<Seq<char>>) -> Seq<char>
    decreases items.len(),
{
    if items.len() == 0 {
        Seq::empty()
    } else if items.len() == 1 {
        items[0]
    } else {
        joined(items.drop_last()) + ","@ + items.last()
    }
}

/// The texts of `items`, in order.
pub open spec fn texts(items: Seq<String>) -> Seq<Seq<char>> {
    Seq::new(items.len(), |i: int| items[i]@)
}

impl Chat {
    /// The JSON object of this piece, members in the order of their keys and
    /// nothing between the tokens.
    pub open spec fn json_text(&self) -> Seq<char> {
        "{"@ + flag_member("bold"@, self.bold) + (match self.color {
            Some(color) => "\"color\":"@ + json_string(color@) + ","@,
            None => Seq::empty(),
        }) + (if self.extra@.len() > 0 {
            "\"extra\":["@ + joined(texts(self.extra@)) + "],"@
        } else {
            Seq::empty()
        }) + flag_member("italic"@, self.italic) + flag_member("obfuscated"@, self.obfuscated)
            + flag_member("strikethrough"@, self.strikethrough) + "\"text\":"@ + json_string(
            self.text@,
        ) + (match self.underlined {
            Some(on) => ",\"underlined\":"@ + (if on {
                "true"@
            } else {
                "false"@
            }),
            None => Seq::empty(),
        }) + "}"@
    }

    /// A piece that holds `text` and nothing else.
    pub fn new_text(text: String) -> (c: Chat)
        ensures
            c.text == text,
            c.bold is None && c.italic is None && c.underlined is None && c.strikethrough is None
                && c.obfuscated is None && c.color is None,
            c.extra@.len() == 0,
    {
        Chat {
            text,
            bold: None,
            italic: None,
            underlined: None,
            strikethrough: None,
            obfuscated: None,
            color: None,
            extra: Vec::new(),
        }
    }

    /// Puts `new_extra` behind the pieces that already follow this one.
    pub fn with_extra(self, new_extra: Chat) -> (c: Chat)
        ensures
            texts(c.extra@) == texts(self.extra@).push(new_extra.json_text()),
            c.text == self.text && c.bold == self.bold && c.italic == self.italic && c.underlined
                == self.underlined && c.strikethrough == self.strikethrough && c.obfuscated
                == self.obfuscated && c.color == self.color,
    {
        let mut c = self;
        let json = new_extra.to_json();
        c.extra.push(json);
        assert(texts(c.extra@) =~= texts(self.extra@).push(new_extra.json_text()));
        c
    }

    pub fn with_bold(self, bold: bool) -> (c: Chat)
        ensures
            c == (Chat { bold: Some(bold), ..self }),
    {
        let mut c = self;
        c.bold = Some(bold);
        c
    }

    pub fn with_italic(self, italic: bool) -> (c: Chat)
        ensures
            c == (Chat { italic: Some(italic), ..self }),
    {
        let mut c = self;
        c.italic = Some(italic);
        c
    }

    pub fn with_underlined(self, underlined: bool) -> (c: Chat)
        ensures
            c == (Chat { underlined: Some(underlined), ..self }),
    {
        let mut c = self;
        c.underlined = Some(underlined);
        c
    }

    pub fn with_strikethrough(self, strikethrough: bool) -> (c: Chat)
        ensures
            c == (Chat { strikethrough: Some(strikethrough), ..self }),
    {
        let mut c = self;
        c.strikethrough = Some(strikethrough);
        c
    }

    pub fn with_obfuscated(self, obfuscated: bool) -> (c: Chat)
        ensures
            c == (Chat { obfuscated: Some(obfuscated), ..self }),
    {
        let mut c = self;
        c.obfuscated = Some(obfuscated);
        c
    }

    pub fn with_color(self, color: String) -> (c: Chat)
        ensures
            c == (Chat { color: Some(color), ..self }),
    {
        let mut c = self;
        c.color = Some(color);
        c
    }

    /// Writes this piece as a JSON object.
    pub fn to_json(&self) -> (json: String)
        ensures
            json@ == self.json_text(),
    {
        let mut json = String::from_str("{");
        push_flag(&mut json, "bold", self.bold);
        match &self.color {
            Some(color) => {
                json.append("\"color\":");
                let quoted = json_quote(color.as_str());
                json.append(quoted.as_str());
                json.append(",");
            },
            None => {},
        }
        let ghost before = json@;
        if self.extra.len() > 0 {
            json.append("\"extra\":[");
            let ghost opened = json@;
            let mut i: usize = 0;
            while i < self.extra.len()
                invariant
                    i <= self.extra@.len(),
                    json@ == opened + joined(texts(self.extra@).take(i as int)),
                decreases self.extra@.len() - i,
            {
                let ghost sofar = texts(self.extra@).take(i as int);
                let ghost next = texts(self.extra@).take(i + 1);
                proof {
                    assert(next.drop_last() =~= sofar);
                    assert(next.last() == self.extra@[i as int]@);
                }
                if i > 0 {
                    json.append(",");
                }
                json.append(self.extra[i].as_str());
                i += 1;
                proof {
                    if i == 1 {
                        assert(sofar =~= Seq::<Seq<char>>::empty());
                        assert(json@ =~= opened + joined(next));
                    } else {
                        assert(json@ =~= opened + joined(next));
                    }
                }
            }
            proof {
                assert(texts(self.extra@).take(i as int) =~= texts(self.extra@));
            }
            json.append("],");
            assert(json@ =~= before + ("\"extra\":["@ + joined(texts(self.extra@)) + "],"@));
        } else {
            assert(json@ =~= before + Seq::<char>::empty());
        }
        push_flag(&mut json, "italic", self.italic);
        push_flag(&mut json, "obfuscated", self.obfuscated);
        push_flag(&mut json, "strikethrough", self.strikethrough);
        json.append("\"text\":");
        let quoted = json_quote(self.text.as_str());
        json.append(quoted.as_str());
        let ghost told = json@;
        match self.underlined {
            Some(on) => {
                json.append(",\"underlined\":");
                json.append(
                    if on {
                        "true"
                    } else {
                        "false"
                    },
                );
                assert(json@ =~= told + (",\"underlined\":"@ + (if on {
                    "true"@
                } else {
                    "false"@
                })));
            },
            None => {
                assert(json@ =~= told + Seq::<char>::empty());
            },
        }
        json.append("}");
        json
    }
}

/// Appends the member of a flag to `json`, if the flag is set.
fn push_flag(json: &mut String, key: &str, flag: Option<bool>)
    ensures
        final(json)@ == old(json)@ + flag_member(key@, flag),
{
    match flag {
        Some(on) => {
            json.append("\"");
            json.append(key);
            json.append("\":");
            json.append(
                if on {
                    "true"
                } else {
                    "false"
                },
            );
            json.append(",");
            assert(json@ =~= old(json)@ + flag_member(key@, flag));
        },
        None => {
            assert(json@ =~= old(json)@ + flag_member(key@, flag));
        },
    }
}

impl Prot for Chat {
    type Model = Seq<char>;

    /// A piece of chat travels as its JSON object.
    open spec fn model(&self) -> Seq<char> {
        self.json_text()
    }

    open spec fn valid(m: Seq<char>) -> bool {
        String::valid(m)
    }

    open spec fn encoding(m: Seq<char>) -> Seq<u8> {
        String::encoding(m)
    }
}

impl SizedProt for Chat {
    fn is_valid(&self) -> (ok: bool) {
        let json = self.to_json();
        json.is_valid()
    }

    fn prot_size(&self) -> (n: usize) {
        let json = self.to_json();
        json.prot_size()
    }
}

impl WriteProt for Chat {
    fn write(&self, out: &mut Vec<u8>) {
        let json = self.to_json();
        json.write(out);
    }
}

} // verus!
