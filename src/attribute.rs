use vstd::prelude::*;
use crate::text::str_eq;

verus! {

/// A per-series directive.
#[derive(Debug, Clone)]
pub enum Attribute {
    Hide,
    Area,
    Xaxis,
    Differentiate,
    Integrate,
    Delta,
    Zero,
    Log,
    Join(String),
}

/// The mathematical value of an [`Attribute`]: the topic of a join is a character sequence.
pub enum AttributeView {
    Hide,
    Area,
    Xaxis,
    Differentiate,
    Integrate,
    Delta,
    Zero,
    Log,
    Join(Seq<char>),
}

/// Why a directive token was rejected.
#[derive(Debug, Clone, Copy, PartialEq, Eq, Structural)]
pub enum ParseError {
    UnknownAttribute,
    InvalidJoinTarget,
}

impl View for Attribute {
    type V = AttributeView;

    open spec fn view(&self) -> AttributeView {
        match self {
            Attribute::Hide => AttributeView::Hide,
            Attribute::Area => AttributeView::Area,
            Attribute::Xaxis => AttributeView::Xaxis,
            Attribute::Differentiate => AttributeView::Differentiate,
            Attribute::Integrate => AttributeView::Integrate,
            Attribute::Delta => AttributeView::Delta,
            Attribute::Zero => AttributeView::Zero,
            Attribute::Log => AttributeView::Log,
            Attribute::Join(t) => AttributeView::Join(t@),
        }
    }
}

impl PartialEq for Attribute {
    fn eq(&self, o: &Attribute) -> (r: bool) {
        match (self, o) {
            (Attribute::Hide, Attribute::Hide) => true,
            (Attribute::Area, Attribute::Area) => true,
            (Attribute::Xaxis, Attribute::Xaxis) => true,
            (Attribute::Differentiate, Attribute::Differentiate) => true,
            (Attribute::Integrate, Attribute::Integrate) => true,
            (Attribute::Delta, Attribute::Delta) => true,
            (Attribute::Zero, Attribute::Zero) => true,
            (Attribute::Log, Attribute::Log) => true,
            (Attribute::Join(a), Attribute::Join(b)) => str_eq(a.as_str(), b.as_str()),
            _ => false,
        }
    }
}

impl vstd::std_specs::cmp::PartialEqSpecImpl for Attribute {
    open spec fn obeys_eq_spec() -> bool {
        true
    }

    open spec fn eq_spec(&self, o: &Attribute) -> bool {
        self@ == o@
    }
}

/// The prefix that introduces a join directive.
pub open spec fn join_prefix() -> Seq<char> {
    "join:"@
}

/// Whether `s` begins with the join prefix.
pub open spec fn has_join_prefix(s: Seq<char>) -> bool {
    s.len() >= join_prefix().len() && s.subrange(0, join_prefix().len() as int) == join_prefix()
}

/// Whether `s` is one of the eight keyword tokens.
pub open spec fn is_keyword(s: Seq<char>) -> bool {
    s == "hide"@ || s == "area"@ || s == "xaxis"@ || s == "differentiate"@ || s == "zero"@
        || s == "integrate"@ || s == "delta"@ || s == "log"@
}

/// What a token means: keywords first, then the join form, otherwise unknown.
pub open spec fn parse_token(s: Seq<char>) -> Result<AttributeView, ParseError> {
    if s == "hide"@ {
        Ok(AttributeView::Hide)
    } else if s == "area"@ {
        Ok(AttributeView::Area)
    } else if s == "xaxis"@ {
        Ok(AttributeView::Xaxis)
    } else if s == "differentiate"@ {
        Ok(AttributeView::Differentiate)
    } else if s == "zero"@ {
        Ok(AttributeView::Zero)
    } else if s == "integrate"@ {
        Ok(AttributeView::Integrate)
    } else if s == "delta"@ {
        Ok(AttributeView::Delta)
    } else if s == "log"@ {
        Ok(AttributeView::Log)
    } else if has_join_prefix(s) {
        if s.len() == join_prefix().len() {
            Err(ParseError::InvalidJoinTarget)
        } else {
            Ok(AttributeView::Join(s.subrange(join_prefix().len() as int, s.len() as int)))
        }
    } else {
        Err(ParseError::UnknownAttribute)
    }
}

impl Attribute {
    /// Parses a directive token, case-sensitively.
    pub fn from(attribute_text: &str) -> (r: Result<Attribute, ParseError>)
        ensures
            match parse_token(attribute_text@) {
                Ok(a) => r is Ok && r->Ok_0@ == a,
                Err(e) => r == Err::<Attribute, ParseError>(e),
            },
    {
        if str_eq(attribute_text, "hide") {
            return Ok(Attribute::Hide);
        }
        if str_eq(attribute_text, "area") {
            return Ok(Attribute::Area);
        }
        if str_eq(attribute_text, "xaxis") {
            return Ok(Attribute::Xaxis);
        }
        if str_eq(attribute_text, "differentiate") {
            return Ok(Attribute::Differentiate);
        }
        if str_eq(attribute_text, "zero") {
            return Ok(Attribute::Zero);
        }
        if str_eq(attribute_text, "integrate") {
            return Ok(Attribute::Integrate);
        }
        if str_eq(attribute_text, "delta") {
            return Ok(Attribute::Delta);
        }
        if str_eq(attribute_text, "log") {
            return Ok(Attribute::Log);
        }
        let prefix = "join:";
        proof {
            reveal_strlit("join:");
        }
        let n = attribute_text.unicode_len();
        if n >= 5 {
            let head = attribute_text.substring_char(0, 5);
            if str_eq(head, prefix) {
                if n == 5 {
                    return Err(ParseError::InvalidJoinTarget);
                }
                let topic = attribute_text.substring_char(5, n);
                return Ok(Attribute::Join(String::from_str(topic)));
            }
        }
        Err(ParseError::UnknownAttribute)
    }
}

/// The views of a list of attributes.
pub open spec fn attribute_views(attrs: Seq<Attribute>) -> Seq<AttributeView> {
    attrs.map_values(|a: Attribute| a@)
}

/// The join topics among `v`, in order.
pub open spec fn join_topics(v: Seq<AttributeView>) -> Seq<Seq<char>>
    decreases v.len(),
{
    if v.len() == 0 {
        Seq::empty()
    } else {
        match v.last() {
            AttributeView::Join(t) => join_topics(v.drop_last()).push(t),
            _ => join_topics(v.drop_last()),
        }
    }
}

/// The views of a list of strings.
pub open spec fn string_views(s: Seq<String>) -> Seq<Seq<char>> {
    s.map_values(|x: String| x@)
}

/// What the attributes attached to one series ask for.
pub struct Directives {
    pub hide: bool,
    pub area: bool,
    pub xaxis: bool,
    pub differentiate: bool,
    pub integrate: bool,
    pub delta: bool,
    pub zero: bool,
    pub log: bool,
    pub topics: Vec<String>,
}

impl Directives {
    /// Collects the directives of one series.
    pub fn collect(attrs: &Vec<Attribute>) -> (r: Directives)
        ensures
            r.hide == attribute_views(attrs@).contains(AttributeView::Hide),
            r.area == attribute_views(attrs@).contains(AttributeView::Area),
            r.xaxis == attribute_views(attrs@).contains(AttributeView::Xaxis),
            r.differentiate == attribute_views(attrs@).contains(AttributeView::Differentiate),
            r.integrate == attribute_views(attrs@).contains(AttributeView::Integrate),
            r.delta == attribute_views(attrs@).contains(AttributeView::Delta),
            r.zero == attribute_views(attrs@).contains(AttributeView::Zero),
            r.log == attribute_views(attrs@).contains(AttributeView::Log),
            string_views(r.topics@) == join_topics(attribute_views(attrs@)),
    {
        let ghost v = attribute_views(attrs@);
        let mut r = Directives {
            hide: false,
            area: false,
            xaxis: false,
            differentiate: false,
            integrate: false,
            delta: false,
            zero: false,
            log: false,
            topics: Vec::new(),
        };
        let n = attrs.len();
        let mut j: usize = 0;
        while j < n
            invariant
                n == attrs@.len(),
                v == attribute_views(attrs@),
                0 <= j <= n,
                r.hide == exists|k: int| 0 <= k < j && v[k] == AttributeView::Hide,
                r.area == exists|k: int| 0 <= k < j && v[k] == AttributeView::Area,
                r.xaxis == exists|k: int| 0 <= k < j && v[k] == AttributeView::Xaxis,
                r.differentiate == exists|k: int| 0 <= k < j && v[k] == AttributeView::Differentiate,
                r.integrate == exists|k: int| 0 <= k < j && v[k] == AttributeView::Integrate,
                r.delta == exists|k: int| 0 <= k < j && v[k] == AttributeView::Delta,
                r.zero == exists|k: int| 0 <= k < j && v[k] == AttributeView::Zero,
                r.log == exists|k: int| 0 <= k < j && v[k] == AttributeView::Log,
                string_views(r.topics@) == join_topics(v.subrange(0, j as int)),
            decreases n - j,
        {
            assert(v.subrange(0, j + 1).drop_last() =~= v.subrange(0, j as int));
            assert(v[j as int] == attrs@[j as int]@);
            match &attrs[j] {
                Attribute::Hide => r.hide = true,
                Attribute::Area => r.area = true,
                Attribute::Xaxis => r.xaxis = true,
                Attribute::Differentiate => r.differentiate = true,
                Attribute::Integrate => r.integrate = true,
                Attribute::Delta => r.delta = true,
                Attribute::Zero => r.zero = true,
                Attribute::Log => r.log = true,
                Attribute::Join(t) => {
                    r.topics.push(t.clone());
                    assert(string_views(r.topics@) =~= join_topics(v.subrange(0, j + 1)));
                },
            }
            j += 1;
        }
        assert(v.subrange(0, n as int) =~= v);
        r
    }
}

/// Each keyword token parses to its own variant.
pub proof fn lemma_keywords_parse()
    ensures
        parse_token("hide"@) == Ok::<AttributeView, ParseError>(AttributeView::Hide),
        parse_token("area"@) == Ok::<AttributeView, ParseError>(AttributeView::Area),
        parse_token("xaxis"@) == Ok::<AttributeView, ParseError>(AttributeView::Xaxis),
        parse_token("differentiate"@) == Ok::<AttributeView, ParseError>(AttributeView::Differentiate),
        parse_token("zero"@) == Ok::<AttributeView, ParseError>(AttributeView::Zero),
        parse_token("integrate"@) == Ok::<AttributeView, ParseError>(AttributeView::Integrate),
        parse_token("delta"@) == Ok::<AttributeView, ParseError>(AttributeView::Delta),
        parse_token("log"@) == Ok::<AttributeView, ParseError>(AttributeView::Log),
{
    reveal_strlit("hide");
    reveal_strlit("area");
    reveal_strlit("xaxis");
    reveal_strlit("differentiate");
    reveal_strlit("zero");
    reveal_strlit("integrate");
    reveal_strlit("delta");
    reveal_strlit("log");
    assert("hide"@.len() == 4 && "area"@.len() == 4 && "zero"@.len() == 4 && "log"@.len() == 3);
    assert("xaxis"@.len() == 5 && "delta"@.len() == 5 && "integrate"@.len() == 9);
    assert("differentiate"@.len() == 13);
    assert("area"@[0] != "hide"@[0]);
    assert("zero"@[0] != "hide"@[0]);
    assert("zero"@[0] != "area"@[0]);
    assert("delta"@[0] != "xaxis"@[0]);
}

/// A token that is neither a keyword nor begins with the join prefix is an unknown attribute.
pub proof fn lemma_unrecognized_rejected(s: Seq<char>)
    requires
        !is_keyword(s),
        !has_join_prefix(s),
    ensures
        parse_token(s) == Err::<AttributeView, ParseError>(ParseError::UnknownAttribute),
{
}

/// A join token with a non-empty topic yields that topic; the bare prefix is rejected.
pub proof fn lemma_join_tokens(topic: Seq<char>)
    ensures
        topic.len() > 0 ==> parse_token(join_prefix() + topic)
            == Ok::<AttributeView, ParseError>(AttributeView::Join(topic)),
        parse_token(join_prefix()) == Err::<AttributeView, ParseError>(ParseError::InvalidJoinTarget),
{
    reveal_strlit("join:");
    reveal_strlit("hide");
    reveal_strlit("area");
    reveal_strlit("xaxis");
    reveal_strlit("differentiate");
    reveal_strlit("zero");
    reveal_strlit("integrate");
    reveal_strlit("delta");
    reveal_strlit("log");
    let s = join_prefix() + topic;
    assert(s.subrange(0, 5) =~= join_prefix());
    assert(s.subrange(5, s.len() as int) =~= topic);
    assert(s[4] == ':');
    assert(join_prefix().subrange(0, 5) =~= join_prefix());
}

} // verus!
