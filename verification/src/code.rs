//! Wi-Fi credentials and the `WIFI:` configuration string made from them.

use vstd::prelude::*;
use qrcodegen::{QrCode, QrSegment};
use crate::escape::{
    escaped, has_reserved, lemma_rendered_field, quoted, render, rendered, reserved_count,
    unescaped, well_escaped,
};
use crate::canvas::Canvas;
use crate::exporters::{
    can_make_image, console_text, is_image_of, svg_text, to_console_string, to_svg_string,
};
use crate::text::same_text;
use crate::qr::{
    encode_segments, encode_text, segments_symbol, symbol_of, text_segments, CapacityError,
    EccLevel, Symbol,
};

verus! {

/// Why a set of credentials cannot be written as a configuration string.
#[derive(Debug, Clone, Copy, PartialEq, Eq, Structural)]
pub enum ErrorKind {
    /// The authentication mode stands for an open network, but a password was given.
    IncompatibleAuthPassword,
    /// The authentication mode asks for a password, but none was given.
    MissingRequiredPassword,
}

/// The error of [`Credentials::format`]: a combination of authentication mode
/// and password that no configuration string can express.
#[derive(Debug, Clone, Copy, PartialEq, Eq, Structural)]
pub struct FormatError {
    pub kind: ErrorKind,
}

impl FormatError {
    /// The advice that goes with each kind of error.
    pub open spec fn advice(kind: ErrorKind) -> Seq<char> {
        match kind {
            ErrorKind::IncompatibleAuthPassword =>
                "With nopass as the encryption type (or unset encryption type), \n                    the password field should be empty. (Encryption should probably be set \n                    to something like wpa2)"@,
            ErrorKind::MissingRequiredPassword =>
                "The encryption method requested requires a password."@,
        }
    }

    /// The kind of this error.
    pub fn kind(&self) -> (kind: ErrorKind)
        ensures
            kind == self.kind,
    {
        self.kind
    }

    /// A recommendation to the caller on how to correct the credentials.
    pub fn message(&self) -> (text: String)
        ensures
            text@ == Self::advice(self.kind),
    {
        match self.kind {
            ErrorKind::IncompatibleAuthPassword =>
                "With nopass as the encryption type (or unset encryption type), \n                    the password field should be empty. (Encryption should probably be set \n                    to something like wpa2)".to_owned(),
            ErrorKind::MissingRequiredPassword =>
                "The encryption method requested requires a password.".to_owned(),
        }
    }
}

/// The upper-case form that `str::to_uppercase` gives a text.
pub uninterp spec fn uppercase(text: Seq<char>) -> Seq<char>;

/// The upper-case form of an ASCII character: the letters `a` to `z` become
/// `A` to `Z`, every other character stays.
pub open spec fn ascii_upper_char(c: char) -> char {
    if 'a' <= c && c <= 'z' {
        ((c as int) - 32) as char
    } else {
        c
    }
}

/// A text with each character in its ASCII upper-case form.
pub open spec fn ascii_upper(text: Seq<char>) -> Seq<char> {
    Seq::new(text.len(), |i: int| ascii_upper_char(text[i]))
}

/// The upper-case form of a text: for a text of ASCII characters the text
/// with `a` to `z` replaced by `A` to `Z`, for any other text what
/// [`uppercase`] names.
pub open spec fn upper_cased(text: Seq<char>) -> Seq<char> {
    if vstd::utf8::is_ascii_chars(text) {
        ascii_upper(text)
    } else {
        uppercase(text)
    }
}

/// `str::to_uppercase`: the upper-case equivalent of the text, by the Unicode
/// rules that the standard library follows. On a text of ASCII characters
/// these rules replace the letters `a` to `z` by `A` to `Z` and leave every
/// other character and the length as they are. The result depends on the text
/// alone.
#[verifier::external_body]
fn to_upper(text: &str) -> (upper: String)
    ensures
        upper@ == uppercase(text@),
        vstd::utf8::is_ascii_chars(text@) ==> upper@ == ascii_upper(text@),
{
    text.to_uppercase()
}

/// Whether an authentication mode stands for a network without a password:
/// the token `nopass`, or no token at all.
pub open spec fn is_open_auth(encr: Seq<char>) -> bool {
    encr.len() == 0 || encr == "nopass"@
}

/// Whether a token reads `nopass` without regard to case.
pub open spec fn is_nopass_token(t: Seq<char>) -> bool {
    t.len() == 6 && (t[0] == 'n' || t[0] == 'N') && (t[1] == 'o' || t[1] == 'O') && (t[2] == 'p'
        || t[2] == 'P') && (t[3] == 'a' || t[3] == 'A') && (t[4] == 's' || t[4] == 'S') && (t[5]
        == 's' || t[5] == 'S')
}

/// The authentication token as it is written after `T:`: `nopass` for no
/// token at all, a token that reads `nopass` in any case as it is, every
/// other token in upper case.
pub open spec fn normalized_auth(encr: Seq<char>) -> Seq<char> {
    if encr.len() == 0 {
        "nopass"@
    } else if is_nopass_token(encr) {
        encr
    } else {
        upper_cased(encr)
    }
}

/// Tells whether a token reads `nopass` without regard to case.
pub fn reads_nopass(token: &str) -> (reads: bool)
    ensures
        reads == is_nopass_token(token@),
{
    if token.unicode_len() != 6 {
        return false;
    }
    let (c0, c1, c2) = (token.get_char(0), token.get_char(1), token.get_char(2));
    let (c3, c4, c5) = (token.get_char(3), token.get_char(4), token.get_char(5));
    (c0 == 'n' || c0 == 'N') && (c1 == 'o' || c1 == 'O') && (c2 == 'p' || c2 == 'P') && (c3 == 'a'
        || c3 == 'A') && (c4 == 's' || c4 == 'S') && (c5 == 's' || c5 == 'S')
}

/// The configuration string of a network without a password.
pub open spec fn open_network_text(ssid: Seq<char>, hidden: bool) -> Seq<char> {
    if hidden {
        "WIFI:T:nopass;S:"@ + ssid + ";H:true;;"@
    } else {
        "WIFI:T:nopass;S:"@ + ssid + ";;"@
    }
}

/// The configuration string of a network with a password. `auth`, `ssid` and
/// `pass` stand in it as they are given.
pub open spec fn secured_network_text(
    auth: Seq<char>,
    ssid: Seq<char>,
    pass: Seq<char>,
    hidden: bool,
) -> Seq<char> {
    if hidden {
        "WIFI:T:"@ + auth + ";S:"@ + ssid + ";P:"@ + pass + ";H:true;;"@
    } else {
        "WIFI:T:"@ + auth + ";S:"@ + ssid + ";P:"@ + pass + ";;"@
    }
}

/// Writes the configuration string of a network without a password around an
/// already rendered SSID.
pub fn open_network(ssid: &str, hidden: bool) -> (text: String)
    ensures
        text@ == open_network_text(ssid@, hidden),
{
    let mut text = "WIFI:T:nopass;S:".to_owned();
    text.append(ssid);
    if hidden {
        text.append(";H:true;;");
    } else {
        text.append(";;");
    }
    text
}

/// Writes the configuration string of a network with a password around an
/// already normalized authentication token and already rendered SSID and password.
pub fn secured_network(auth: &str, ssid: &str, pass: &str, hidden: bool) -> (text: String)
    ensures
        text@ == secured_network_text(auth@, ssid@, pass@, hidden),
{
    let mut text = "WIFI:T:".to_owned();
    text.append(auth);
    text.append(";S:");
    text.append(ssid);
    text.append(";P:");
    text.append(pass);
    if hidden {
        text.append(";H:true;;");
    } else {
        text.append(";;");
    }
    text
}

/// The credentials of a wireless network, as plain values.
pub struct Record {
    pub ssid: Seq<char>,
    pub pass: Seq<char>,
    pub encr: Seq<char>,
    pub hidden: bool,
    pub quote: bool,
}

/// The outcome of formatting a record: the configuration string, or the kind
/// of the first check that the record fails.
pub open spec fn formatted(rec: Record) -> Result<Seq<char>, ErrorKind> {
    if is_open_auth(rec.encr) && rec.pass.len() > 0 {
        Err(ErrorKind::IncompatibleAuthPassword)
    } else if rec.pass.len() == 0 && !is_open_auth(rec.encr) {
        Err(ErrorKind::MissingRequiredPassword)
    } else if rec.pass.len() == 0 {
        Ok(open_network_text(rendered(rec.ssid, rec.quote), rec.hidden))
    } else {
        Ok(
            secured_network_text(
                normalized_auth(rec.encr),
                rendered(rec.ssid, rec.quote),
                rendered(rec.pass, rec.quote),
                rec.hidden,
            ),
        )
    }
}

/// Whether `res` is what formatting the record gives: the string of
/// [`formatted`], or an error of the kind that it names.
pub open spec fn is_format_outcome(rec: Record, res: Result<String, FormatError>) -> bool {
    match formatted(rec) {
        Ok(text) => res is Ok && res->Ok_0@ == text,
        Err(kind) => res is Err && res->Err_0.kind == kind,
    }
}

/// Formatting is a function of the record: two runs on the same record agree
/// on success, on the string and on the error.
pub proof fn lemma_format_deterministic(
    rec: Record,
    first: Result<String, FormatError>,
    second: Result<String, FormatError>,
)
    requires
        is_format_outcome(rec, first),
        is_format_outcome(rec, second),
    ensures
        first is Ok <==> second is Ok,
        first is Ok ==> first->Ok_0@ == second->Ok_0@,
        first is Err ==> first->Err_0 == second->Err_0,
{
}

/// An open authentication mode with a password has no configuration string.
pub proof fn lemma_open_auth_with_password(rec: Record)
    requires
        rec.encr.len() == 0 || rec.encr == "nopass"@,
        rec.pass.len() > 0,
    ensures
        formatted(rec) == Err::<Seq<char>, ErrorKind>(ErrorKind::IncompatibleAuthPassword),
{
}

/// An authentication mode that asks for a password has no configuration
/// string without one.
pub proof fn lemma_password_required(rec: Record)
    requires
        rec.encr.len() != 0 && rec.encr != "nopass"@,
        rec.pass.len() == 0,
    ensures
        formatted(rec) == Err::<Seq<char>, ErrorKind>(ErrorKind::MissingRequiredPassword),
{
}

/// A field as the configuration string holds it, told by whether it has a
/// reserved character: escaped if it has one; else as it is, quoted on demand.
pub open spec fn field_text(s: Seq<char>, quote: bool) -> Seq<char> {
    if has_reserved(s) {
        escaped(s)
    } else if quote {
        quoted(s)
    } else {
        s
    }
}

/// In a configuration string the SSID and the password stand escaped: a field
/// with a reserved character is written with each such character behind
/// exactly one backslash and nothing else changed, so that reading the escapes
/// back gives the field. A field without one stands as it is, between double
/// quotes where quoting is set.
pub proof fn lemma_formatted_fields(rec: Record)
    requires
        formatted(rec) is Ok,
    ensures
        rec.pass.len() == 0 ==> formatted(rec)->Ok_0 == open_network_text(
            field_text(rec.ssid, rec.quote),
            rec.hidden,
        ),
        rec.pass.len() > 0 ==> formatted(rec)->Ok_0 == secured_network_text(
            normalized_auth(rec.encr),
            field_text(rec.ssid, rec.quote),
            field_text(rec.pass, rec.quote),
            rec.hidden,
        ),
        unescaped(escaped(rec.ssid)) == rec.ssid,
        unescaped(escaped(rec.pass)) == rec.pass,
        well_escaped(escaped(rec.ssid)),
        well_escaped(escaped(rec.pass)),
        escaped(rec.ssid).len() == rec.ssid.len() + reserved_count(rec.ssid),
        escaped(rec.pass).len() == rec.pass.len() + reserved_count(rec.pass),
{
    lemma_rendered_field(rec.ssid, rec.quote);
    lemma_rendered_field(rec.pass, rec.quote);
}

/// The credentials of a wireless network.
#[derive(Debug)]
pub struct Credentials {
    /// The name of the network.
    pub ssid: String,
    /// The password; empty for a network without one.
    pub pass: String,
    /// The authentication mode: `nopass`, `wep`, `wpa`, `wpa2`, `wpa3`, ...
    pub encr: String,
    /// Whether the network hides its name.
    pub hidden: bool,
    /// Whether an SSID or password without reserved characters is put between
    /// double quotes.
    pub quote: bool,
}

impl View for Credentials {
    type V = Record;

    open spec fn view(&self) -> Record {
        Record {
            ssid: self.ssid@,
            pass: self.pass@,
            encr: self.encr@,
            hidden: self.hidden,
            quote: self.quote,
        }
    }
}

impl Credentials {
    /// Gathers the credentials of a network. Nothing is checked here: the
    /// checks are those of [`Credentials::format`].
    pub fn new(
        _ssid: Option<&str>,
        _password: Option<&str>,
        _encr: Option<&str>,
        _hidden: bool,
        _quote: bool,
    ) -> (cred: Self)
        requires
            _ssid is Some,
            _password is Some,
            _encr is Some,
        ensures
            cred@ == (Record {
                ssid: _ssid->0@,
                pass: _password->0@,
                encr: _encr->0@,
                hidden: _hidden,
                quote: _quote,
            }),
    {
        Credentials {
            ssid: _ssid.unwrap().to_owned(),
            encr: _encr.unwrap().to_owned(),
            pass: _password.unwrap().to_owned(),
            hidden: _hidden,
            quote: _quote,
        }
    }

    /// Renders an SSID or a password for the configuration string: reserved
    /// characters escaped, or the whole between double quotes where quoting is
    /// set and nothing had to be escaped.
    pub fn filter_credentials(&self, field: &str) -> (out: String)
        ensures
            out@ == rendered(field@, self.quote),
    {
        render(field, self.quote)
    }

    /// Normalizes an authentication token: `nopass` for no token at all, a
    /// token that reads `nopass` in any case unchanged, upper case for every
    /// other token.
    pub fn filter_encr(&self, field: &str) -> (out: String)
        ensures
            out@ == normalized_auth(field@),
    {
        if field.is_empty() {
            "nopass".to_owned()
        } else if reads_nopass(field) {
            field.to_owned()
        } else {
            to_upper(field)
        }
    }

    /// Checks the credentials and writes them as a `WIFI:` configuration string.
    ///
    /// An open authentication mode with a password fails as
    /// `IncompatibleAuthPassword`, any other mode without a password as
    /// `MissingRequiredPassword`; every other record has a string, and the
    /// string is that of [`formatted`].
    pub fn format(&self) -> (res: Result<String, FormatError>)
        ensures
            is_format_outcome(self@, res),
            is_open_auth(self@.encr) && self@.pass.len() > 0 ==> res is Err && res->Err_0.kind
                == ErrorKind::IncompatibleAuthPassword,
            !is_open_auth(self@.encr) && self@.pass.len() == 0 ==> res is Err && res->Err_0.kind
                == ErrorKind::MissingRequiredPassword,
            res is Ok <==> (is_open_auth(self@.encr) <==> self@.pass.len() == 0),
    {
        let open = self.encr.as_str().is_empty() || same_text(self.encr.as_str(), "nopass");
        let no_pass = self.pass.as_str().is_empty();
        if open && !no_pass {
            return Err(FormatError { kind: ErrorKind::IncompatibleAuthPassword });
        }
        if no_pass && !open {
            return Err(FormatError { kind: ErrorKind::MissingRequiredPassword });
        }
        let ssid = self.filter_credentials(self.ssid.as_str());
        if no_pass {
            Ok(open_network(ssid.as_str(), self.hidden))
        } else {
            let auth = self.filter_encr(self.encr.as_str());
            let pass = self.filter_credentials(self.pass.as_str());
            Ok(secured_network(auth.as_str(), ssid.as_str(), pass.as_str(), self.hidden))
        }
    }
}

/// Gathers the credentials of a network, as [`Credentials::new`] does.
pub fn auth(
    _ssid: Option<&str>,
    _password: Option<&str>,
    _encr: Option<&str>,
    _hidden: bool,
    _quote: bool,
) -> (cred: Credentials)
    requires
        _ssid is Some,
        _password is Some,
        _encr is Some,
    ensures
        cred@ == (Record {
            ssid: _ssid->0@,
            pass: _password->0@,
            encr: _encr->0@,
            hidden: _hidden,
            quote: _quote,
        }),
{
    Credentials::new(_ssid, _password, _encr, _hidden, _quote)
}

/// Why credentials have no symbol.
#[derive(Debug, Clone, Copy, PartialEq, Eq, Structural)]
pub enum EncodeError {
    /// The credentials have no configuration string.
    Format(FormatError),
    /// The configuration string fits no symbol.
    Capacity(CapacityError),
}

/// The symbol of a text at the highest level of error correction, over all
/// versions, or `None` where the text fits none.
pub open spec fn text_symbol(text: Seq<char>) -> Option<Symbol> {
    segments_symbol(text_segments(text), EccLevel::High, 1, 40, None, true)
}

/// The symbol that [`manual_encode`] makes of a record: that of the segments
/// of its configuration string, with the level raised where that costs no
/// larger version.
pub open spec fn manual_symbol(
    rec: Record,
    level: EccLevel,
    lowest: u8,
    highest: u8,
    mask: Option<u8>,
) -> Option<Symbol> {
    segments_symbol(text_segments(formatted(rec)->Ok_0), level, lowest, highest, mask, true)
}

/// Whether the arguments of [`manual_encode`] name a range of versions and a mask.
pub open spec fn is_version_range(lowest: u8, highest: u8, mask: Option<u8>) -> bool {
    1 <= lowest <= highest <= 40 && (mask is Some ==> mask->0 <= 7)
}

/// Turns the outcome of the encoder into that of [`encode`]: the symbol, or
/// the failure as an [`EncodeError`].
pub fn encoding_outcome(encoded: Result<QrCode, CapacityError>) -> (res: Result<
    QrCode,
    EncodeError,
>)
    ensures
        match encoded {
            Ok(qr) => res is Ok && res->Ok_0 == qr,
            Err(e) => res is Err && res->Err_0 == EncodeError::Capacity(e),
        },
{
    match encoded {
        Ok(qr) => Ok(qr),
        Err(e) => Err(EncodeError::Capacity(e)),
    }
}

/// Makes the symbol of a set of credentials: that of its configuration
/// string, at the highest level of error correction.
pub fn encode(config: &Credentials) -> (res: Result<QrCode, EncodeError>)
    ensures
        match formatted(config@) {
            Err(kind) => res is Err && res->Err_0 == EncodeError::Format(FormatError { kind }),
            Ok(text) => match text_symbol(text) {
                Some(sym) => res is Ok && symbol_of(res->Ok_0) == sym,
                None => res is Err && res->Err_0 is Capacity,
            },
        },
{
    let c = match config.format() {
        Ok(c) => c,
        Err(e) => {
            return Err(EncodeError::Format(e));
        },
    };
    encoding_outcome(encode_text(c.as_str(), EccLevel::High))
}

/// Makes the symbol of a set of credentials step by step, with the level of
/// error correction, the range of versions and the mask chosen by the caller.
/// It serves to hold [`encode`] against.
pub fn manual_encode(
    config: &Credentials,
    error_level: EccLevel,
    lowest_version: u8,
    highest_version: u8,
    mask_level: Option<u8>,
) -> (qr: QrCode)
    requires
        formatted(config@) is Ok,
        is_version_range(lowest_version, highest_version, mask_level),
        manual_symbol(config@, error_level, lowest_version, highest_version, mask_level) is Some,
    ensures
        Some(symbol_of(qr)) == manual_symbol(
            config@,
            error_level,
            lowest_version,
            highest_version,
            mask_level,
        ),
{
    let text = config.format().unwrap();
    let segs: Vec<QrSegment> = QrSegment::make_segments(text.as_str());
    encode_segments(&segs, error_level, lowest_version, highest_version, mask_level, true).unwrap()
}

/// Tells whether [`manual_encode`] can be called: the credentials have a
/// configuration string, the versions and the mask are in range, and the
/// string fits a version in the range.
pub fn can_manual_encode(
    config: &Credentials,
    error_level: EccLevel,
    lowest_version: u8,
    highest_version: u8,
    mask_level: Option<u8>,
) -> (can: bool)
    ensures
        can == (formatted(config@) is Ok && is_version_range(
            lowest_version,
            highest_version,
            mask_level,
        ) && manual_symbol(config@, error_level, lowest_version, highest_version, mask_level)
            is Some),
{
    if lowest_version < 1 || lowest_version > highest_version || highest_version > 40 {
        return false;
    }
    if let Some(mask) = mask_level {
        if mask > 7 {
            return false;
        }
    }
    match config.format() {
        Err(_) => false,
        Ok(text) => {
            let segs: Vec<QrSegment> = QrSegment::make_segments(text.as_str());
            encode_segments(
                &segs,
                error_level,
                lowest_version,
                highest_version,
                mask_level,
                true,
            ).is_ok()
        },
    }
}

/// [`manual_encode`] for any arguments: `None` where it cannot be called.
pub fn try_manual_encode(
    config: &Credentials,
    error_level: EccLevel,
    lowest_version: u8,
    highest_version: u8,
    mask_level: Option<u8>,
) -> (res: Option<QrCode>)
    ensures
        res is Some <==> formatted(config@) is Ok && is_version_range(
            lowest_version,
            highest_version,
            mask_level,
        ) && manual_symbol(config@, error_level, lowest_version, highest_version, mask_level)
            is Some,
        res is Some ==> Some(symbol_of(res->0)) == manual_symbol(
            config@,
            error_level,
            lowest_version,
            highest_version,
            mask_level,
        ),
{
    if can_manual_encode(config, error_level, lowest_version, highest_version, mask_level) {
        Some(manual_encode(config, error_level, lowest_version, highest_version, mask_level))
    } else {
        None
    }
}

/// The symbol of [`encode`] is the one that [`manual_encode`] makes at the
/// highest level over all versions with no mask chosen.
pub proof fn lemma_encode_is_manual_encode(rec: Record)
    requires
        formatted(rec) is Ok,
    ensures
        text_symbol(formatted(rec)->Ok_0) == manual_symbol(rec, EccLevel::High, 1, 40, None),
{
}

/// Writes a symbol as a block of text for a terminal, ready to be printed,
/// with a quiet zone of `quiet_zone` modules around it.
pub fn console_qr(qrcode: &QrCode, quiet_zone: i32) -> (text: String)
    ensures
        text@ == console_text(symbol_of(*qrcode), quiet_zone as int),
{
    to_console_string(qrcode, quiet_zone)
}

/// Draws a symbol as an image: `scale` by `scale` pixels for each module, on
/// white, with a border of `border_size` pixels on each side.
pub fn make_image(qrcode: &QrCode, scale: i32, border_size: i32) -> (image: Canvas)
    requires
        can_make_image(symbol_of(*qrcode), scale as int, border_size as int),
    ensures
        is_image_of(image, symbol_of(*qrcode), scale as int, border_size as int),
{
    crate::exporters::make_image(qrcode, scale, border_size)
}

/// Writes a symbol as an SVG document with a border of 4 modules.
pub fn make_svg(qrcode: &QrCode) -> (svg: String)
    ensures
        svg@ == svg_text(symbol_of(*qrcode), 4),
{
    // a symbol has at most 177 modules on a side: the border fits
    let size = qrcode.size();
    assert(size + 2 * 4 <= i32::MAX);
    to_svg_string(qrcode, 4)
}

} // verus!
