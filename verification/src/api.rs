use vstd::prelude::*;

use fast_qr::convert::svg::SvgBuilder;
use fast_qr::convert::{Builder, Shape};
use fast_qr::qr::QRBuilder;

use crate::id::{base64_encoded, id_code, id_of_text, parse_id, Rejection, Uid};

verus! {

/// The query of a request that names one identifier.
pub struct UidQuery {
    pub id: Option<String>,
}

/// The identifier a request must name.
pub struct Id(pub Uid);

/// The identifier a request may name.
pub struct OptionalId(pub Option<Uid>);

/// The query of a request that names something.
pub struct Name {
    pub name: String,
}

/// The query of a request that submits a flag for a puzzle.
pub struct FlagCheckQuery {
    pub id: Uid,
    pub flag: String,
}

/// The query of a request about participations in events.
pub struct ParticipateQuery {
    pub user: Option<String>,
    pub event: Option<Uid>,
}

/// Which participations are asked for: those of a user, those in an
/// event, or all of them.
pub enum ParticipationFilter {
    User(Uid),
    Event(Uid),
    All,
}

impl Id {
    /// Reads the identifier a request must name; `query` is `None` where
    /// the query string could not be read.
    pub fn from_query(query: Option<UidQuery>) -> (res: Result<Id, Rejection>)
        ensures
            match query {
                Some(UidQuery { id: Some(text) }) => match id_of_text(text@) {
                    Some(b) => res matches Ok(Id(id)) && id.bytes@ == b,
                    None => res == Err::<Id, Rejection>(Rejection::IdUndecodable),
                },
                _ => res == Err::<Id, Rejection>(Rejection::IdMissing),
            },
    {
        match query {
            Some(UidQuery { id: Some(text) }) => match parse_id(text.as_str()) {
                Ok(id) => Ok(Id(id)),
                Err(rejection) => Err(rejection),
            },
            _ => Err(Rejection::IdMissing),
        }
    }
}

impl OptionalId {
    /// Reads the identifier a request may name; `query` is `None` where the
    /// query string could not be read, which counts as naming nothing.
    pub fn from_query(query: Option<UidQuery>) -> (res: Result<OptionalId, Rejection>)
        ensures
            match query {
                Some(UidQuery { id: Some(text) }) => match id_of_text(text@) {
                    Some(b) => res matches Ok(OptionalId(Some(id))) && id.bytes@ == b,
                    None => res == Err::<OptionalId, Rejection>(Rejection::IdUndecodable),
                },
                _ => res matches Ok(OptionalId(None)),
            },
    {
        match query {
            Some(UidQuery { id: Some(text) }) => match parse_id(text.as_str()) {
                Ok(id) => Ok(OptionalId(Some(id))),
                Err(rejection) => Err(rejection),
            },
            _ => Ok(OptionalId(None)),
        }
    }
}

impl ParticipateQuery {
    /// Reads the user and the event of a participation to record; `query`
    /// is `None` where the query string could not be read.
    pub fn participant(query: Option<ParticipateQuery>) -> (res: Result<(Uid, Uid), Rejection>)
        ensures
            match query {
                None => res == Err::<(Uid, Uid), Rejection>(Rejection::QueriesMissing),
                Some(ParticipateQuery { user: None, .. }) => res == Err::<(Uid, Uid), Rejection>(
                    Rejection::UserMissing,
                ),
                Some(ParticipateQuery { user: Some(_), event: None }) => res == Err::<
                    (Uid, Uid),
                    Rejection,
                >(Rejection::EventMissing),
                Some(ParticipateQuery { user: Some(text), event: Some(event) }) => match id_of_text(
                    text@,
                ) {
                    Some(b) => res matches Ok((user, ev)) && user.bytes@ == b && ev == event,
                    None => res == Err::<(Uid, Uid), Rejection>(Rejection::IdUndecodable),
                },
            },
    {
        match query {
            None => Err(Rejection::QueriesMissing),
            Some(ParticipateQuery { user: None, .. }) => Err(Rejection::UserMissing),
            Some(ParticipateQuery { user: Some(_), event: None }) => Err(Rejection::EventMissing),
            Some(ParticipateQuery { user: Some(text), event: Some(event) }) => {
                match parse_id(text.as_str()) {
                    Ok(user) => Ok((user, event)),
                    Err(rejection) => Err(rejection),
                }
            },
        }
    }
}

impl ParticipationFilter {
    /// Reads which participations a request asks for; a user, when named,
    /// takes precedence over an event. `query` is `None` where the query
    /// string could not be read.
    pub fn from_query(query: Option<ParticipateQuery>) -> (res: Result<ParticipationFilter, Rejection>)
        ensures
            match query {
                None => res matches Err(Rejection::QueriesMissing),
                Some(ParticipateQuery { user: Some(text), .. }) => match id_of_text(text@) {
                    Some(b) => res matches Ok(ParticipationFilter::User(u)) && u.bytes@ == b,
                    None => res matches Err(Rejection::IdUndecodable),
                },
                Some(ParticipateQuery { user: None, event: Some(event) }) => res matches Ok(
                    ParticipationFilter::Event(e),
                ) && e == event,
                Some(ParticipateQuery { user: None, event: None }) => res matches Ok(
                    ParticipationFilter::All,
                ),
            },
    {
        match query {
            None => Err(Rejection::QueriesMissing),
            Some(ParticipateQuery { user: Some(text), .. }) => match parse_id(text.as_str()) {
                Ok(user) => Ok(ParticipationFilter::User(user)),
                Err(rejection) => Err(rejection),
            },
            Some(ParticipateQuery { user: None, event: Some(event) }) => Ok(
                ParticipationFilter::Event(event),
            ),
            Some(ParticipateQuery { user: None, event: None }) => Ok(ParticipationFilter::All),
        }
    }
}

/// The colors of a QR code the caller asks for: of the modules and of the
/// background.
pub struct Colors {
    pub module: Option<String>,
    pub background: Option<String>,
}

/// The SVG image that `fast_qr` draws of a text with the given module and
/// background colors (square modules, default error correction), or `None`
/// where the text does not fit in a QR code.
pub uninterp spec fn qr_svg(text: Seq<char>, module: Seq<char>, background: Seq<char>) -> Option<
    Seq<char>,
>;

/// Calls `QRBuilder::build` on the text and draws the code with
/// `SvgBuilder` (square modules, the given colors). The image is named
/// `qr_svg`; a text of at most 25 characters (100 bytes) always fits, as
/// the default level of error correction holds up to 1663 bytes.
#[verifier::external_body]
fn draw_qr(text: &str, module: String, background: String) -> (res: Option<String>)
    ensures
        match res {
            Some(svg) => qr_svg(text@, module@, background@) == Some(svg@),
            None => qr_svg(text@, module@, background@) is None,
        },
        text@.len() <= 25 ==> res is Some,
{
    let qr = QRBuilder::new(text).build().ok()?;
    Some(SvgBuilder::default().shape(Shape::Square).module_color(module)
        .background_color(background).to_str(&qr))
}

/// The module color used where the caller names none: opaque black.
pub open spec fn default_module_color() -> Seq<char> {
    "#000000ff"@
}

/// The background color used where the caller names none: opaque white.
pub open spec fn default_background_color() -> Seq<char> {
    "#ffffffff"@
}

/// The SVG image of the QR code that identifies a user: the code of their
/// identifier, drawn in the colors asked for.
pub fn user_qr(user: &Uid, style: Colors) -> (res: String)
    ensures
        qr_svg(
            base64_encoded(user.bytes@),
            match style.module {
                Some(c) => c@,
                None => default_module_color(),
            },
            match style.background {
                Some(c) => c@,
                None => default_background_color(),
            },
        ) == Some(res@),
{
    let code = id_code(user);
    let module = match style.module {
        Some(c) => c,
        None => String::from_str("#000000ff"),
    };
    let background = match style.background {
        Some(c) => c,
        None => String::from_str("#ffffffff"),
    };
    match draw_qr(code.as_str(), module, background) {
        Some(svg) => svg,
        None => {
            assert(false);
            String::new()
        },
    }
}

} // verus!
