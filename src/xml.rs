use vstd::prelude::*;

use xmlparser::{ElementEnd, Token, Tokenizer};

verus! {

#[verifier::external_type_specification]
#[verifier::external_body]
pub struct ExXmlError(xmlparser::Error);

/// One token of an XML text, as far as the descriptor walks read it.
pub enum XmlToken {
    /// The start of an element's opening tag, with the element's local name.
    ElementStart(String),
    /// An attribute of the element being opened: local name and raw value.
    Attribute(String, String),
    /// Text between tags, with its whitespace.
    Text(String),
    /// The `>` that ends an opening tag.
    TagOpen,
    /// The end of an element: `/>` or a closing tag.
    TagEnd,
    /// Anything else (declarations, comments, character data sections).
    Other,
}

/// What an `XmlToken` holds, as character sequences.
pub enum Tok {
    Start(Seq<char>),
    Attr(Seq<char>, Seq<char>),
    Text(Seq<char>),
    TagOpen,
    TagEnd,
    Other,
}

impl View for XmlToken {
    type V = Tok;

    open spec fn view(&self) -> Tok {
        match self {
            XmlToken::ElementStart(n) => Tok::Start(n@),
            XmlToken::Attribute(n, v) => Tok::Attr(n@, v@),
            XmlToken::Text(t) => Tok::Text(t@),
            XmlToken::TagOpen => Tok::TagOpen,
            XmlToken::TagEnd => Tok::TagEnd,
            XmlToken::Other => Tok::Other,
        }
    }
}

pub open spec fn tok_views(ts: Seq<XmlToken>) -> Seq<Tok> {
    ts.map_values(|t: XmlToken| t@)
}

/// The tokens that xmlparser's tokenizer yields for a text, or `None` when
/// it reports an error before the end.
pub uninterp spec fn xml_tokens(text: Seq<char>) -> Option<Seq<Tok>>;

/// Relies on xmlparser's `Tokenizer`: its tokens, in order, each converted
/// one for one, or the first error that it reports.
#[verifier::external_body]
pub(crate) fn tokenize(xml: &str) -> (r: Result<Vec<XmlToken>, xmlparser::Error>)
    ensures
        r is Ok <==> xml_tokens(xml@) is Some,
        r is Ok ==> xml_tokens(xml@) == Some(tok_views(r->Ok_0@)),
{
    let mut out = Vec::new();
    for token in Tokenizer::from(xml) {
        out.push(match token? {
            Token::ElementStart { local, .. } => XmlToken::ElementStart(local.to_string()),
            Token::Attribute { local, value, .. } => {
                XmlToken::Attribute(local.to_string(), value.to_string())
            },
            Token::Text { text } => XmlToken::Text(text.to_string()),
            Token::ElementEnd { end: ElementEnd::Open, .. } => XmlToken::TagOpen,
            Token::ElementEnd { .. } => XmlToken::TagEnd,
            _ => XmlToken::Other,
        });
    }
    Ok(out)
}

} // verus!
