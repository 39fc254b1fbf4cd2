//! Logging in: the XML-RPC `login_to_simulator` request, the checks on what
//! the login service answers, and reading its XML-RPC response.

use crate::binary::{push_hex_byte, spec_model_insert};
use crate::osd::{OSD, OsdMap, OsdModel};
use crate::binary::{spec_entry_model, spec_entry_models, spec_models};
use crate::text::{
    i32_to_string, parse_i32, spec_int_decimal, spec_parse_i32, spec_trim_start, str_chars, str_eq,
    string_push_str,
};
use crate::uuid::spec_hex_lower;
use crate::xml::{
    escape_xml_into, lemma_xml_unescape_escape, spec_tokens, spec_xml_error, spec_xml_escape, spec_xml_unescape,
    xml_rs_events, xml_tokens, XmlToken, XmlTokenModel,
};
use vstd::prelude::*;
use vstd::utf8::encode_utf8;

verus! {

/// What a viewer tells the login service about itself and the agent.
pub struct LoginParams {
    pub first_name: String,
    pub last_name: String,
    pub password: String,
    pub start: String,
    pub channel: String,
    pub version: String,
    pub platform: String,
    pub platform_version: String,
    pub mac: String,
    pub id0: String,
    pub viewer_digest: String,
    pub user_agent: String,
    pub author: String,
    pub agree_to_tos: bool,
    pub read_critical: bool,
    pub last_exec_event: i32,
    pub options: Vec<String>,
}

/// The login options requested by default, in order.
pub open spec fn spec_default_options() -> Seq<Seq<char>> {
    seq![
        "inventory-root"@,
        "inventory-skeleton"@,
        "initial-outfit"@,
        "gestures"@,
        "display_names"@,
        "event_categories"@,
        "event_notifications"@,
        "classified_categories"@,
        "adult_compliant"@,
        "buddy-list"@,
        "newuser-config"@,
        "ui-config"@,
        "advanced-mode"@,
        "max-agent-groups"@,
        "map-server-url"@,
        "voice-config"@,
        "tutorial_settings"@,
        "login-flags"@,
        "global-textures"@,
    ]
}

impl Default for LoginParams {
    fn default() -> (r: Self)
        ensures
            r.first_name@ == Seq::<char>::empty() && r.last_name@ == Seq::<char>::empty(),
            r.password@ == Seq::<char>::empty() && r.viewer_digest@ == Seq::<char>::empty(),
            r.start@ == "last"@,
            r.channel@ == "RustMetaverse"@,
            r.version@ == "0.1.0"@,
            r.platform@ == "Linux"@,
            r.platform_version@ == "0.0.0"@,
            r.mac@ == "5f4dcc3b5aa765d61d8327deb882cf99"@,
            r.id0@ == "5f4dcc3b5aa765d61d8327deb882cf99"@,
            r.user_agent@ == "RustMetaverse"@,
            r.author@ == "RustMetaverse"@,
            r.agree_to_tos && r.read_critical,
            r.last_exec_event == 0,
            r.options@.len() == spec_default_options().len(),
            forall|i: int| 0 <= i < r.options@.len() ==> (#[trigger] r.options@[i])@ == spec_default_options()[i],
    {
        let mut options: Vec<String> = Vec::new();
        options.push("inventory-root".to_string());
        options.push("inventory-skeleton".to_string());
        options.push("initial-outfit".to_string());
        options.push("gestures".to_string());
        options.push("display_names".to_string());
        options.push("event_categories".to_string());
        options.push("event_notifications".to_string());
        options.push("classified_categories".to_string());
        options.push("adult_compliant".to_string());
        options.push("buddy-list".to_string());
        options.push("newuser-config".to_string());
        options.push("ui-config".to_string());
        options.push("advanced-mode".to_string());
        options.push("max-agent-groups".to_string());
        options.push("map-server-url".to_string());
        options.push("voice-config".to_string());
        options.push("tutorial_settings".to_string());
        options.push("login-flags".to_string());
        options.push("global-textures".to_string());
        LoginParams {
            first_name: String::new(),
            last_name: String::new(),
            password: String::new(),
            start: "last".to_string(),
            channel: "RustMetaverse".to_string(),
            version: "0.1.0".to_string(),
            platform: "Linux".to_string(),
            platform_version: "0.0.0".to_string(),
            mac: "5f4dcc3b5aa765d61d8327deb882cf99".to_string(),
            id0: "5f4dcc3b5aa765d61d8327deb882cf99".to_string(),
            viewer_digest: String::new(),
            user_agent: "RustMetaverse".to_string(),
            author: "RustMetaverse".to_string(),
            agree_to_tos: true,
            read_critical: true,
            last_exec_event: 0,
            options,
        }
    }
}

/// The MD5 digest of `data`.
pub uninterp spec fn md5_digest(data: Seq<u8>) -> Seq<u8>;

/// `md5::compute`: the 16 bytes of the digest.
#[verifier::external_body]
fn md5_compute(data: &[u8]) -> (r: [u8; 16])
    ensures
        r@ == md5_digest(data@),
{
    md5::compute(data).0
}

/// The password as the login service takes it: `$1$` and the lower-case
/// hex of the MD5 digest of its UTF-8 bytes.
pub open spec fn spec_password_hash(password: Seq<char>) -> Seq<char> {
    "$1$"@ + spec_hex_lower(md5_digest(encode_utf8(password)))
}

/// The hashed password for the login request.
pub fn password_hash(password: &str) -> (r: String)
    ensures
        r@ == spec_password_hash(password@),
{
    let digest = md5_compute(password.as_bytes());
    let mut s = String::new();
    string_push_str(&mut s, "$1$");
    let mut i: usize = 0;
    while i < 16
        invariant
            i <= 16,
            digest@.len() == 16,
            s@ == "$1$"@ + spec_hex_lower(digest@.subrange(0, i as int)),
        decreases 16 - i,
    {
        push_hex_byte(&mut s, digest[i]);
        proof {
            let t = digest@.subrange(0, i + 1);
            assert(t.drop_last() =~= digest@.subrange(0, i as int));
            let one = seq![digest@[i as int]];
            assert(one.drop_last() =~= Seq::<u8>::empty());
            assert(one.last() == digest@[i as int]);
            assert(spec_hex_lower(Seq::<u8>::empty()) =~= Seq::<char>::empty());
            assert(spec_hex_lower(one) =~= seq![
                crate::uuid::spec_hex_digit(digest@[i as int] / 16),
                crate::uuid::spec_hex_digit(digest@[i as int] % 16),
            ]);
            assert(t.last() == digest@[i as int]);
        }
        i = i + 1;
        assert(s@ =~= "$1$"@ + spec_hex_lower(digest@.subrange(0, i as int)));
    }
    assert(digest@.subrange(0, 16) =~= digest@);
    s
}

/// One string member of the request struct.
pub open spec fn spec_string_member(name: Seq<char>, value: Seq<char>) -> Seq<char> {
    "<member><name>"@ + name + "</name><value><string>"@ + spec_xml_escape(value) + "</string></value></member>\n"@
}

/// The option values of the request, one after another.
pub open spec fn spec_option_values(options: Seq<Seq<char>>) -> Seq<char>
    decreases options.len(),
{
    if options.len() == 0 {
        Seq::empty()
    } else {
        spec_option_values(options.drop_last()) + "<value><string>"@ + spec_xml_escape(options.last())
            + "</string></value>\n"@
    }
}

/// The texts of the options.
pub open spec fn spec_option_texts(options: Seq<String>) -> Seq<Seq<char>> {
    options.map_values(|o: String| o@)
}

/// The XML-RPC `login_to_simulator` call for these parameters.
pub open spec fn spec_login_body(p: LoginParams) -> Seq<char> {
    "<?xml version=\"1.0\"?>\n<methodCall>\n<methodName>login_to_simulator</methodName>\n<params>\n<param>\n<value>\n<struct>\n"@
        + spec_string_member("first"@, p.first_name@)
        + spec_string_member("last"@, p.last_name@)
        + spec_string_member("passwd"@, spec_password_hash(p.password@))
        + spec_string_member("start"@, p.start@)
        + spec_string_member("channel"@, p.channel@)
        + spec_string_member("version"@, p.version@)
        + spec_string_member("platform"@, p.platform@)
        + spec_string_member("platform_version"@, p.platform_version@)
        + spec_string_member("mac"@, p.mac@)
        + spec_string_member("id0"@, p.id0@)
        + spec_string_member("viewer_digest"@, p.viewer_digest@)
        + spec_string_member("user_agent"@, p.user_agent@)
        + spec_string_member("author"@, p.author@)
        + "<member><name>agree_to_tos</name><value><boolean>"@ + (if p.agree_to_tos { "1"@ } else { "0"@ })
        + "</boolean></value></member>\n"@
        + "<member><name>read_critical</name><value><boolean>"@ + (if p.read_critical { "1"@ } else { "0"@ })
        + "</boolean></value></member>\n"@
        + "<member><name>last_exec_event</name><value><int>"@ + spec_int_decimal(p.last_exec_event as int)
        + "</int></value></member>\n"@
        + "<member><name>options</name><value><array><data>\n"@
        + spec_option_values(spec_option_texts(p.options@))
        + "</data></array></value></member>\n"@
        + "</struct>\n</value>\n</param>\n</params>\n</methodCall>"@
}

/// `body` is `a`, then the string member `name` with the character data
/// `e`, then `b`.
pub open spec fn spec_member_split(body: Seq<char>, a: Seq<char>, name: Seq<char>, e: Seq<char>, b: Seq<char>) -> bool {
    body == a + "<member><name>"@ + name + "</name><value><string>"@ + e + "</string></value></member>\n"@ + b
}

/// Whether `body` holds a string member `name` whose character data reads
/// back, by XML's entities, as `value`.
pub open spec fn spec_has_string_member(body: Seq<char>, name: Seq<char>, value: Seq<char>) -> bool {
    exists|a: Seq<char>, e: Seq<char>, b: Seq<char>|
        #[trigger] spec_member_split(body, a, name, e, b) && spec_xml_unescape(e) == Some(value)
}

/// A string member written between `a` and `b` is found there, its text
/// reading back as the value.
proof fn lemma_member_found(a: Seq<char>, name: Seq<char>, value: Seq<char>, b: Seq<char>)
    ensures
        spec_has_string_member(a + spec_string_member(name, value) + b, name, value),
{
    let e = spec_xml_escape(value);
    lemma_xml_unescape_escape(value);
    assert(spec_member_split(a + spec_string_member(name, value) + b, a, name, e, b)) by {
        assert(a + spec_string_member(name, value) + b =~= a + "<member><name>"@ + name + "</name><value><string>"@ + e
            + "</string></value></member>\n"@ + b);
    }
}

/// Law: the login request carries the start location as a string member
/// whose character data reads back as the location itself, whatever
/// characters it holds: `&`, `<`, `>` and quotes arrive escaped, so the
/// request stays well-formed and the simulator reads the location given.
/// A prefix of a prefix is a prefix.
proof fn lemma_prefix_shrinks(body: Seq<char>, x: Seq<char>, t: Seq<char>)
    requires
        (x + t).len() <= body.len(),
        body.subrange(0, (x + t).len() as int) == x + t,
    ensures
        x.len() <= body.len(),
        body.subrange(0, x.len() as int) == x,
{
    assert(body.subrange(0, x.len() as int) =~= (x + t).subrange(0, x.len() as int));
    assert((x + t).subrange(0, x.len() as int) =~= x);
}

/// A sequence is its prefix followed by the rest.
proof fn lemma_split_at(x: Seq<char>, z: Seq<char>)
    requires
        z.len() <= x.len(),
        x.subrange(0, z.len() as int) == z,
    ensures
        x == z + x.subrange(z.len() as int, x.len() as int),
{
    assert(x =~= z + x.subrange(z.len() as int, x.len() as int));
}

/// Law: the login request carries every string parameter (names,
/// password hash, start location, channel, version, platform, hardware
/// identifiers, user agent and author) as a string member whose character
/// data reads back, by XML's entities, as the parameter itself, whatever
/// characters it holds: `&`, `<`, `>` and quotes arrive escaped, so the
/// request stays well-formed and the service reads the values given.
#[verifier::rlimit(50)]
pub proof fn lemma_login_body_string_members(p: LoginParams)
    ensures
        spec_has_string_member(spec_login_body(p), "first"@, p.first_name@),
        spec_has_string_member(spec_login_body(p), "last"@, p.last_name@),
        spec_has_string_member(spec_login_body(p), "passwd"@, spec_password_hash(p.password@)),
        spec_has_string_member(spec_login_body(p), "start"@, p.start@),
        spec_has_string_member(spec_login_body(p), "channel"@, p.channel@),
        spec_has_string_member(spec_login_body(p), "version"@, p.version@),
        spec_has_string_member(spec_login_body(p), "platform"@, p.platform@),
        spec_has_string_member(spec_login_body(p), "platform_version"@, p.platform_version@),
        spec_has_string_member(spec_login_body(p), "mac"@, p.mac@),
        spec_has_string_member(spec_login_body(p), "id0"@, p.id0@),
        spec_has_string_member(spec_login_body(p), "viewer_digest"@, p.viewer_digest@),
        spec_has_string_member(spec_login_body(p), "user_agent"@, p.user_agent@),
        spec_has_string_member(spec_login_body(p), "author"@, p.author@),
{
    let body = spec_login_body(p);
    let s0 = "<?xml version=\"1.0\"?>\n<methodCall>\n<methodName>login_to_simulator</methodName>\n<params>\n<param>\n<value>\n<struct>\n"@;
    let s1 = s0 + spec_string_member("first"@, p.first_name@);
    let s2 = s1 + spec_string_member("last"@, p.last_name@);
    let s3 = s2 + spec_string_member("passwd"@, spec_password_hash(p.password@));
    let s4 = s3 + spec_string_member("start"@, p.start@);
    let s5 = s4 + spec_string_member("channel"@, p.channel@);
    let s6 = s5 + spec_string_member("version"@, p.version@);
    let s7 = s6 + spec_string_member("platform"@, p.platform@);
    let s8 = s7 + spec_string_member("platform_version"@, p.platform_version@);
    let s9 = s8 + spec_string_member("mac"@, p.mac@);
    let s10 = s9 + spec_string_member("id0"@, p.id0@);
    let s11 = s10 + spec_string_member("viewer_digest"@, p.viewer_digest@);
    let s12 = s11 + spec_string_member("user_agent"@, p.user_agent@);
    let s13 = s12 + spec_string_member("author"@, p.author@);
    let s14 = s13 + "<member><name>agree_to_tos</name><value><boolean>"@;
    let s15 = s14 + (if p.agree_to_tos { "1"@ } else { "0"@ });
    let s16 = s15 + "</boolean></value></member>\n"@;
    let s17 = s16 + "<member><name>read_critical</name><value><boolean>"@;
    let s18 = s17 + (if p.read_critical { "1"@ } else { "0"@ });
    let s19 = s18 + "</boolean></value></member>\n"@;
    let s20 = s19 + "<member><name>last_exec_event</name><value><int>"@;
    let s21 = s20 + spec_int_decimal(p.last_exec_event as int);
    let s22 = s21 + "</int></value></member>\n"@;
    let s23 = s22 + "<member><name>options</name><value><array><data>\n"@;
    let s24 = s23 + spec_option_values(spec_option_texts(p.options@));
    let s25 = s24 + "</data></array></value></member>\n"@;
    let s26 = s25 + "</struct>\n</value>\n</param>\n</params>\n</methodCall>"@;
    assert(body == s26);
    assert(body.subrange(0, body.len() as int) =~= body);
    lemma_prefix_shrinks(body, s25, "</struct>\n</value>\n</param>\n</params>\n</methodCall>"@);
    lemma_prefix_shrinks(body, s24, "</data></array></value></member>\n"@);
    lemma_prefix_shrinks(body, s23, spec_option_values(spec_option_texts(p.options@)));
    lemma_prefix_shrinks(body, s22, "<member><name>options</name><value><array><data>\n"@);
    lemma_prefix_shrinks(body, s21, "</int></value></member>\n"@);
    lemma_prefix_shrinks(body, s20, spec_int_decimal(p.last_exec_event as int));
    lemma_prefix_shrinks(body, s19, "<member><name>last_exec_event</name><value><int>"@);
    lemma_prefix_shrinks(body, s18, "</boolean></value></member>\n"@);
    lemma_prefix_shrinks(body, s17, (if p.read_critical { "1"@ } else { "0"@ }));
    lemma_prefix_shrinks(body, s16, "<member><name>read_critical</name><value><boolean>"@);
    lemma_prefix_shrinks(body, s15, "</boolean></value></member>\n"@);
    lemma_prefix_shrinks(body, s14, (if p.agree_to_tos { "1"@ } else { "0"@ }));
    lemma_prefix_shrinks(body, s13, "<member><name>agree_to_tos</name><value><boolean>"@);
    lemma_prefix_shrinks(body, s12, spec_string_member("author"@, p.author@));
    lemma_prefix_shrinks(body, s11, spec_string_member("user_agent"@, p.user_agent@));
    lemma_prefix_shrinks(body, s10, spec_string_member("viewer_digest"@, p.viewer_digest@));
    lemma_prefix_shrinks(body, s9, spec_string_member("id0"@, p.id0@));
    lemma_prefix_shrinks(body, s8, spec_string_member("mac"@, p.mac@));
    lemma_prefix_shrinks(body, s7, spec_string_member("platform_version"@, p.platform_version@));
    lemma_prefix_shrinks(body, s6, spec_string_member("platform"@, p.platform@));
    lemma_prefix_shrinks(body, s5, spec_string_member("version"@, p.version@));
    lemma_prefix_shrinks(body, s4, spec_string_member("channel"@, p.channel@));
    lemma_prefix_shrinks(body, s3, spec_string_member("start"@, p.start@));
    lemma_prefix_shrinks(body, s2, spec_string_member("passwd"@, spec_password_hash(p.password@)));
    lemma_prefix_shrinks(body, s1, spec_string_member("last"@, p.last_name@));
    lemma_prefix_shrinks(body, s0, spec_string_member("first"@, p.first_name@));
    lemma_split_at(body, s1);
    lemma_member_found(s0, "first"@, p.first_name@, body.subrange(s1.len() as int, body.len() as int));
    lemma_split_at(body, s2);
    lemma_member_found(s1, "last"@, p.last_name@, body.subrange(s2.len() as int, body.len() as int));
    lemma_split_at(body, s3);
    lemma_member_found(s2, "passwd"@, spec_password_hash(p.password@), body.subrange(s3.len() as int, body.len() as int));
    lemma_split_at(body, s4);
    lemma_member_found(s3, "start"@, p.start@, body.subrange(s4.len() as int, body.len() as int));
    lemma_split_at(body, s5);
    lemma_member_found(s4, "channel"@, p.channel@, body.subrange(s5.len() as int, body.len() as int));
    lemma_split_at(body, s6);
    lemma_member_found(s5, "version"@, p.version@, body.subrange(s6.len() as int, body.len() as int));
    lemma_split_at(body, s7);
    lemma_member_found(s6, "platform"@, p.platform@, body.subrange(s7.len() as int, body.len() as int));
    lemma_split_at(body, s8);
    lemma_member_found(s7, "platform_version"@, p.platform_version@, body.subrange(s8.len() as int, body.len() as int));
    lemma_split_at(body, s9);
    lemma_member_found(s8, "mac"@, p.mac@, body.subrange(s9.len() as int, body.len() as int));
    lemma_split_at(body, s10);
    lemma_member_found(s9, "id0"@, p.id0@, body.subrange(s10.len() as int, body.len() as int));
    lemma_split_at(body, s11);
    lemma_member_found(s10, "viewer_digest"@, p.viewer_digest@, body.subrange(s11.len() as int, body.len() as int));
    lemma_split_at(body, s12);
    lemma_member_found(s11, "user_agent"@, p.user_agent@, body.subrange(s12.len() as int, body.len() as int));
    lemma_split_at(body, s13);
    lemma_member_found(s12, "author"@, p.author@, body.subrange(s13.len() as int, body.len() as int));
}

fn push_string_member(body: &mut String, name: &str, value: &str)
    ensures
        final(body)@ == old(body)@ + spec_string_member(name@, value@),
{
    string_push_str(body, "<member><name>");
    string_push_str(body, name);
    string_push_str(body, "</name><value><string>");
    escape_xml_into(value, body);
    string_push_str(body, "</string></value></member>\n");
    assert(final(body)@ =~= old(body)@ + spec_string_member(name@, value@));
}

/// The XML-RPC `login_to_simulator` call for these parameters.
pub fn login_request_body(params: &LoginParams) -> (r: String)
    ensures
        r@ == spec_login_body(*params),
{
    let mut b = String::new();
    string_push_str(&mut b, "<?xml version=\"1.0\"?>\n<methodCall>\n<methodName>login_to_simulator</methodName>\n<params>\n<param>\n<value>\n<struct>\n");
    let pass_hash = password_hash(params.password.as_str());
    push_string_member(&mut b, "first", params.first_name.as_str());
    push_string_member(&mut b, "last", params.last_name.as_str());
    push_string_member(&mut b, "passwd", pass_hash.as_str());
    push_string_member(&mut b, "start", params.start.as_str());
    push_string_member(&mut b, "channel", params.channel.as_str());
    push_string_member(&mut b, "version", params.version.as_str());
    push_string_member(&mut b, "platform", params.platform.as_str());
    push_string_member(&mut b, "platform_version", params.platform_version.as_str());
    push_string_member(&mut b, "mac", params.mac.as_str());
    push_string_member(&mut b, "id0", params.id0.as_str());
    push_string_member(&mut b, "viewer_digest", params.viewer_digest.as_str());
    push_string_member(&mut b, "user_agent", params.user_agent.as_str());
    push_string_member(&mut b, "author", params.author.as_str());
    string_push_str(&mut b, "<member><name>agree_to_tos</name><value><boolean>");
    string_push_str(&mut b, if params.agree_to_tos { "1" } else { "0" });
    string_push_str(&mut b, "</boolean></value></member>\n");
    string_push_str(&mut b, "<member><name>read_critical</name><value><boolean>");
    string_push_str(&mut b, if params.read_critical { "1" } else { "0" });
    string_push_str(&mut b, "</boolean></value></member>\n");
    string_push_str(&mut b, "<member><name>last_exec_event</name><value><int>");
    let n = i32_to_string(params.last_exec_event);
    string_push_str(&mut b, n.as_str());
    string_push_str(&mut b, "</int></value></member>\n");
    string_push_str(&mut b, "<member><name>options</name><value><array><data>\n");
    let ghost head = b@;
    let ghost opts = spec_option_texts(params.options@);
    let mut i: usize = 0;
    while i < params.options.len()
        invariant
            i <= params.options@.len(),
            opts == spec_option_texts(params.options@),
            b@ == head + spec_option_values(opts.subrange(0, i as int)),
        decreases params.options@.len() - i,
    {
        string_push_str(&mut b, "<value><string>");
        escape_xml_into(params.options[i].as_str(), &mut b);
        string_push_str(&mut b, "</string></value>\n");
        proof {
            let t = opts.subrange(0, i + 1);
            assert(t.drop_last() =~= opts.subrange(0, i as int));
            assert(t.last() == params.options@[i as int]@);
        }
        i = i + 1;
        assert(b@ =~= head + spec_option_values(opts.subrange(0, i as int)));
    }
    assert(opts.subrange(0, params.options@.len() as int) =~= opts);
    string_push_str(&mut b, "</data></array></value></member>\n");
    string_push_str(&mut b, "</struct>\n</value>\n</param>\n</params>\n</methodCall>");
    assert(b@ =~= spec_login_body(*params));
    b
}


/// Whether `s` begins with `p`.
pub open spec fn spec_starts_with(s: Seq<char>, p: Seq<char>) -> bool {
    s.len() >= p.len() && s.subrange(0, p.len() as int) == p
}

fn starts_with(s: &Vec<char>, p: &str) -> (r: bool)
    ensures
        r == spec_starts_with(s@, p@),
{
    let pc = str_chars(p);
    if s.len() < pc.len() {
        return false;
    }
    let mut i: usize = 0;
    while i < pc.len()
        invariant
            i <= pc@.len(),
            pc@ == p@,
            s@.len() >= pc@.len(),
            forall|j: int| 0 <= j < i ==> s@[j] == pc@[j],
        decreases pc@.len() - i,
    {
        if s[i] != pc[i] {
            assert(s@.subrange(0, p@.len() as int)[i as int] != p@[i as int]);
            return false;
        }
        i = i + 1;
    }
    assert(s@.subrange(0, p@.len() as int) =~= p@);
    true
}

/// Why an answer of the login service is not an XML-RPC response, if it is
/// not: an HTTP status other than success, or a body that does not begin
/// (after whitespace) with `<?xml` or `<methodResponse`. The body itself is
/// never part of the message.
pub open spec fn spec_login_response_problem(success: bool, status: Seq<char>, content_type: Seq<char>, body: Seq<char>) -> Option<Seq<char>> {
    if !success {
        Some("login endpoint returned HTTP "@ + status + " ("@ + content_type + "), not XML-RPC"@)
    } else if !(spec_starts_with(spec_trim_start(body), "<?xml"@) || spec_starts_with(spec_trim_start(body), "<methodResponse"@)) {
        Some("login endpoint returned non-XML-RPC content ("@ + content_type + ")"@)
    } else {
        None
    }
}

/// Checks an answer of the login service before it is read as XML-RPC;
/// `status` is the HTTP status as text and `content_type` the response's
/// content type.
pub fn login_response_problem(success: bool, status: &str, content_type: &str, body: &str) -> (r: Option<String>)
    ensures
        match spec_login_response_problem(success, status@, content_type@, body@) {
            Some(m) => r is Some && r->0@ == m,
            None => r is None,
        },
{
    if !success {
        let mut m = String::new();
        string_push_str(&mut m, "login endpoint returned HTTP ");
        string_push_str(&mut m, status);
        string_push_str(&mut m, " (");
        string_push_str(&mut m, content_type);
        string_push_str(&mut m, "), not XML-RPC");
        return Some(m);
    }
    let chars = str_chars(body);
    let mut a: usize = 0;
    assert(body@.subrange(0, chars@.len() as int) =~= body@);
    while a < chars.len() && crate::text::is_whitespace(chars[a])
        invariant
            a <= chars@.len(),
            chars@ == body@,
            spec_trim_start(body@) == spec_trim_start(body@.subrange(a as int, chars@.len() as int)),
        decreases chars@.len() - a,
    {
        let ghost t = body@.subrange(a as int, chars@.len() as int);
        assert(t.drop_first() =~= body@.subrange(a + 1, chars@.len() as int));
        a = a + 1;
    }
    let rest_str = crate::text::string_of_chars(&chars, a, chars.len());
    let rest = str_chars(rest_str.as_str());
    assert(spec_trim_start(body@) == rest@) by {
        if rest@.len() > 0 {
            assert(rest@[0] == chars@[a as int]);
        }
    }
    if !(starts_with(&rest, "<?xml") || starts_with(&rest, "<methodResponse")) {
        let mut m = String::new();
        string_push_str(&mut m, "login endpoint returned non-XML-RPC content (");
        string_push_str(&mut m, content_type);
        string_push_str(&mut m, ")");
        return Some(m);
    }
    None
}


/// Reading the text of an XML-RPC scalar from event `i`, after `acc`: up
/// to the next end tag, which is consumed; other tags are passed over.
pub open spec fn spec_rpc_text(ev: Seq<XmlTokenModel>, i: int, acc: Seq<char>) -> Result<(Seq<char>, int), Seq<char>>
    decreases ev.len() - i,
{
    if i < 0 || i >= ev.len() {
        Err("Unexpected end of XML in string"@)
    } else {
        match ev[i] {
            XmlTokenModel::Text(t) => spec_rpc_text(ev, i + 1, acc + t),
            XmlTokenModel::End(_) => Ok((acc, i + 1)),
            XmlTokenModel::Error(e) => Err(spec_xml_error(e)),
            _ => spec_rpc_text(ev, i + 1, acc),
        }
    }
}

/// Reading an XML-RPC `<value>` from event `i` (after its start tag):
/// strings, `int`/`i4` (0 when not a number), booleans (`1` or `true`),
/// structs and arrays; bare text is a string, an empty value is undef, and
/// other tags are passed over. `fuel` above the events left is enough.
pub open spec fn spec_rpc_value(ev: Seq<XmlTokenModel>, i: int, fuel: nat) -> Result<(OsdModel, int), Seq<char>>
    decreases fuel,
{
    if fuel == 0 || i < 0 || i >= ev.len() {
        Err("Unexpected end of XML in value"@)
    } else {
        match ev[i] {
            XmlTokenModel::Start(name) => if name == "string"@ {
                match spec_rpc_text(ev, i + 1, Seq::empty()) {
                    Ok((t, j)) => Ok((OsdModel::String(t), j)),
                    Err(e) => Err(e),
                }
            } else if name == "int"@ || name == "i4"@ {
                match spec_rpc_text(ev, i + 1, Seq::empty()) {
                    Ok((t, j)) => Ok((OsdModel::Integer(
                        match spec_parse_i32(t) {
                            Some(v) => v,
                            None => 0i32,
                        },
                    ), j)),
                    Err(e) => Err(e),
                }
            } else if name == "boolean"@ {
                match spec_rpc_text(ev, i + 1, Seq::empty()) {
                    Ok((t, j)) => Ok((OsdModel::Boolean(t == "1"@ || t == "true"@), j)),
                    Err(e) => Err(e),
                }
            } else if name == "struct"@ {
                spec_rpc_struct(ev, i + 1, (fuel - 1) as nat, Seq::empty())
            } else if name == "array"@ {
                spec_rpc_array(ev, i + 1, (fuel - 1) as nat, Seq::empty())
            } else {
                spec_rpc_value(ev, i + 1, (fuel - 1) as nat)
            },
            XmlTokenModel::Text(t) => Ok((OsdModel::String(t), i + 1)),
            XmlTokenModel::End(name) => if name == "value"@ {
                Ok((OsdModel::Undef, i + 1))
            } else {
                spec_rpc_value(ev, i + 1, (fuel - 1) as nat)
            },
            XmlTokenModel::Error(e) => Err(spec_xml_error(e)),
            XmlTokenModel::Whitespace(_) => spec_rpc_value(ev, i + 1, (fuel - 1) as nat),
            XmlTokenModel::Other => spec_rpc_value(ev, i + 1, (fuel - 1) as nat),
        }
    }
}

/// Law: an XML-RPC `<boolean>` value is true exactly when its text is `1`
/// or `true`; any other text, `0` and `false` among them, reads as false.
/// Reading ends where the element's text ends.
pub proof fn lemma_rpc_boolean_text(ev: Seq<XmlTokenModel>, i: int, fuel: nat, t: Seq<char>, j: int)
    requires
        fuel > 0,
        0 <= i < ev.len(),
        ev[i] == XmlTokenModel::Start("boolean"@),
        spec_rpc_text(ev, i + 1, Seq::empty()) == Ok::<(Seq<char>, int), Seq<char>>((t, j)),
    ensures
        (t == "1"@ || t == "true"@) ==> spec_rpc_value(ev, i, fuel) == Ok::<(OsdModel, int), Seq<char>>(
            (OsdModel::Boolean(true), j),
        ),
        !(t == "1"@ || t == "true"@) ==> spec_rpc_value(ev, i, fuel) == Ok::<(OsdModel, int), Seq<char>>(
            (OsdModel::Boolean(false), j),
        ),
{
    reveal_strlit("boolean");
    reveal_strlit("string");
    reveal_strlit("int");
    reveal_strlit("i4");
    assert("boolean"@.len() == 7 && "string"@.len() == 6 && "int"@.len() == 3 && "i4"@.len() == 2);
}

/// Reading the rest of an XML-RPC struct from event `i`, after the members
/// `acc`.
pub open spec fn spec_rpc_struct(ev: Seq<XmlTokenModel>, i: int, fuel: nat, acc: Seq<(Seq<char>, OsdModel)>) -> Result<(OsdModel, int), Seq<char>>
    decreases fuel,
{
    if fuel == 0 || i < 0 || i >= ev.len() {
        Err("Unexpected end of XML in struct"@)
    } else {
        match ev[i] {
            XmlTokenModel::Start(name) => if name == "member"@ {
                match spec_rpc_member(ev, i + 1, (fuel - 1) as nat, Seq::empty(), OsdModel::Undef) {
                    Err(e) => Err(e),
                    Ok((kv, j)) => spec_rpc_struct(ev, j, (fuel - 1) as nat, spec_model_insert(acc, kv.0, kv.1)),
                }
            } else {
                spec_rpc_struct(ev, i + 1, (fuel - 1) as nat, acc)
            },
            XmlTokenModel::End(name) => if name == "struct"@ {
                Ok((OsdModel::Dict(acc), i + 1))
            } else {
                spec_rpc_struct(ev, i + 1, (fuel - 1) as nat, acc)
            },
            XmlTokenModel::Error(e) => Err(spec_xml_error(e)),
            _ => spec_rpc_struct(ev, i + 1, (fuel - 1) as nat, acc),
        }
    }
}

/// Reading the rest of an XML-RPC struct member from event `i`: its name
/// and value so far are `key` and `value`.
pub open spec fn spec_rpc_member(ev: Seq<XmlTokenModel>, i: int, fuel: nat, key: Seq<char>, value: OsdModel) -> Result<((Seq<char>, OsdModel), int), Seq<char>>
    decreases fuel,
{
    if fuel == 0 || i < 0 || i >= ev.len() {
        Err("Unexpected end of XML in member"@)
    } else {
        match ev[i] {
            XmlTokenModel::Start(name) => if name == "name"@ {
                match spec_rpc_text(ev, i + 1, Seq::empty()) {
                    Err(e) => Err(e),
                    Ok((k, j)) => spec_rpc_member(ev, j, (fuel - 1) as nat, k, value),
                }
            } else if name == "value"@ {
                match spec_rpc_value(ev, i + 1, (fuel - 1) as nat) {
                    Err(e) => Err(e),
                    Ok((v, j)) => spec_rpc_member(ev, j, (fuel - 1) as nat, key, v),
                }
            } else {
                spec_rpc_member(ev, i + 1, (fuel - 1) as nat, key, value)
            },
            XmlTokenModel::End(name) => if name == "member"@ {
                Ok(((key, value), i + 1))
            } else {
                spec_rpc_member(ev, i + 1, (fuel - 1) as nat, key, value)
            },
            XmlTokenModel::Error(e) => Err(spec_xml_error(e)),
            _ => spec_rpc_member(ev, i + 1, (fuel - 1) as nat, key, value),
        }
    }
}

/// Reading the rest of an XML-RPC array from event `i`, after the items
/// `acc`.
pub open spec fn spec_rpc_array(ev: Seq<XmlTokenModel>, i: int, fuel: nat, acc: Seq<OsdModel>) -> Result<(OsdModel, int), Seq<char>>
    decreases fuel,
{
    if fuel == 0 || i < 0 || i >= ev.len() {
        Err("Unexpected end of XML in array"@)
    } else {
        match ev[i] {
            XmlTokenModel::Start(name) => if name == "value"@ {
                match spec_rpc_value(ev, i + 1, (fuel - 1) as nat) {
                    Err(e) => Err(e),
                    Ok((v, j)) => spec_rpc_array(ev, j, (fuel - 1) as nat, acc.push(v)),
                }
            } else {
                spec_rpc_array(ev, i + 1, (fuel - 1) as nat, acc)
            },
            XmlTokenModel::End(name) => if name == "array"@ {
                Ok((OsdModel::Array(acc), i + 1))
            } else {
                spec_rpc_array(ev, i + 1, (fuel - 1) as nat, acc)
            },
            XmlTokenModel::Error(e) => Err(spec_xml_error(e)),
            _ => spec_rpc_array(ev, i + 1, (fuel - 1) as nat, acc),
        }
    }
}

/// Reading an XML-RPC response from event `i`: the first struct, whether
/// under `params` or `fault`. An XML error is reported with its own message.
pub open spec fn spec_rpc_response(ev: Seq<XmlTokenModel>, i: int) -> Result<OsdModel, Seq<char>>
    decreases ev.len() - i,
{
    if i < 0 || i >= ev.len() {
        Err("No struct found in response"@)
    } else {
        match ev[i] {
            XmlTokenModel::Start(name) => if name == "struct"@ {
                match spec_rpc_struct(ev, i + 1, ev.len() as nat, Seq::empty()) {
                    Ok((m, _)) => Ok(m),
                    Err(e) => Err(e),
                }
            } else {
                spec_rpc_response(ev, i + 1)
            },
            XmlTokenModel::Error(e) => Err(e),
            _ => spec_rpc_response(ev, i + 1),
        }
    }
}

/// What an XML-RPC response text reads as.
pub open spec fn spec_parse_xml_rpc_response(xml: Seq<char>) -> Result<OsdModel, Seq<char>> {
    spec_rpc_response(xml_rs_events(xml), 0)
}


fn rpc_xml_error(e: &String) -> (r: String)
    ensures
        r@ == spec_xml_error(e@),
{
    let mut s = String::new();
    string_push_str(&mut s, "XML error: ");
    string_push_str(&mut s, e.as_str());
    s
}

/// Reads the text of an XML-RPC scalar from event `i`.
fn rpc_text(ev: &Vec<XmlToken>, i: usize) -> (r: Result<(String, usize), String>)
    requires
        i <= ev@.len(),
    ensures
        match spec_rpc_text(spec_tokens(ev@), i as int, Seq::empty()) {
            Ok((t, j)) => r is Ok && r->Ok_0.0@ == t && r->Ok_0.1 == j,
            Err(e) => r is Err && r->Err_0@ == e,
        },
        r is Ok ==> i < r->Ok_0.1 <= ev@.len(),
{
    let ghost evm = spec_tokens(ev@);
    let mut content = String::new();
    let mut k: usize = i;
    while k < ev.len()
        invariant
            i <= k <= ev@.len(),
            evm == spec_tokens(ev@),
            spec_rpc_text(evm, i as int, Seq::empty()) == spec_rpc_text(evm, k as int, content@),
        decreases ev@.len() - k,
    {
        assert(evm[k as int] == ev@[k as int]@);
        match &ev[k] {
            XmlToken::Text(t) => {
                string_push_str(&mut content, t.as_str());
            },
            XmlToken::End(_) => {
                return Ok((content, k + 1));
            },
            XmlToken::Error(e) => {
                return Err(rpc_xml_error(e));
            },
            _ => {},
        }
        k = k + 1;
    }
    Err("Unexpected end of XML in string".to_string())
}

/// Reads an XML-RPC `<value>` from event `i`.
#[verifier::loop_isolation(false)]
fn rpc_value(ev: &Vec<XmlToken>, i: usize, Ghost(fuel): Ghost<nat>) -> (r: Result<(OSD, usize), String>)
    requires
        i <= ev@.len(),
        fuel > ev@.len() - i,
    ensures
        match spec_rpc_value(spec_tokens(ev@), i as int, fuel) {
            Ok((m, j)) => r is Ok && r->Ok_0.0.model() == m && r->Ok_0.1 == j,
            Err(e) => r is Err && r->Err_0@ == e,
        },
        r is Ok ==> i < r->Ok_0.1 <= ev@.len(),
    decreases fuel,
{
    let ghost evm = spec_tokens(ev@);
    let mut k: usize = i;
    let ghost mut f: nat = fuel;
    loop
        invariant
            i <= k <= ev@.len(),
            f <= fuel,
            f > ev@.len() - k,
            spec_rpc_value(evm, i as int, fuel) == spec_rpc_value(evm, k as int, f),
        decreases ev@.len() - k,
    {
        if k >= ev.len() {
            return Err("Unexpected end of XML in value".to_string());
        }
        assert(evm[k as int] == ev@[k as int]@);
        match &ev[k] {
            XmlToken::Start(name) => {
                let n = name.as_str();
                if str_eq(n, "string") {
                    return match rpc_text(ev, k + 1) {
                        Ok((t, j)) => Ok((OSD::String(t), j)),
                        Err(e) => Err(e),
                    };
                } else if str_eq(n, "int") || str_eq(n, "i4") {
                    return match rpc_text(ev, k + 1) {
                        Ok((t, j)) => {
                            let v = match parse_i32(t.as_str()) {
                                Some(v) => v,
                                None => 0,
                            };
                            Ok((OSD::Integer(v), j))
                        },
                        Err(e) => Err(e),
                    };
                } else if str_eq(n, "boolean") {
                    return match rpc_text(ev, k + 1) {
                        Ok((t, j)) => Ok((OSD::Boolean(str_eq(t.as_str(), "1") || str_eq(t.as_str(), "true")), j)),
                        Err(e) => Err(e),
                    };
                } else if str_eq(n, "struct") {
                    return rpc_struct(ev, k + 1, Ghost((f - 1) as nat));
                } else if str_eq(n, "array") {
                    return rpc_array(ev, k + 1, Ghost((f - 1) as nat));
                }
            },
            XmlToken::Text(t) => {
                return Ok((OSD::String(t.clone()), k + 1));
            },
            XmlToken::End(name) => {
                if str_eq(name.as_str(), "value") {
                    return Ok((OSD::Undef, k + 1));
                }
            },
            XmlToken::Error(e) => {
                return Err(rpc_xml_error(e));
            },
            XmlToken::Whitespace(_) => {},
            XmlToken::Other => {},
        }
        k = k + 1;
        proof {
            f = (f - 1) as nat;
        }
    }
}

/// Reads the rest of an XML-RPC struct from event `i`.
#[verifier::loop_isolation(false)]
fn rpc_struct(ev: &Vec<XmlToken>, i: usize, Ghost(fuel): Ghost<nat>) -> (r: Result<(OSD, usize), String>)
    requires
        i <= ev@.len(),
        fuel > ev@.len() - i,
    ensures
        match spec_rpc_struct(spec_tokens(ev@), i as int, fuel, Seq::empty()) {
            Ok((m, j)) => r is Ok && r->Ok_0.0.model() == m && r->Ok_0.1 == j,
            Err(e) => r is Err && r->Err_0@ == e,
        },
        r is Ok ==> i < r->Ok_0.1 <= ev@.len(),
    decreases fuel,
{
    let ghost evm = spec_tokens(ev@);
    let mut map: OsdMap<OSD> = OsdMap::new();
    assert(spec_entry_models(map.spec_entries()) =~= Seq::<(Seq<char>, OsdModel)>::empty());
    let mut k: usize = i;
    let ghost mut f: nat = fuel;
    loop
        invariant
            i <= k <= ev@.len(),
            f <= fuel,
            f > ev@.len() - k,
            spec_rpc_struct(evm, i as int, fuel, Seq::empty()) == spec_rpc_struct(evm, k as int, f, spec_entry_models(map.spec_entries())),
        decreases ev@.len() - k,
    {
        if k >= ev.len() {
            return Err("Unexpected end of XML in struct".to_string());
        }
        assert(evm[k as int] == ev@[k as int]@);
        match &ev[k] {
            XmlToken::Start(name) => {
                if str_eq(name.as_str(), "member") {
                    match rpc_member(ev, k + 1, Ghost((f - 1) as nat)) {
                        Err(e) => {
                            return Err(e);
                        },
                        Ok((key, value, j)) => {
                            let ghost before = map.spec_entries();
                            let ghost gk = key;
                            let ghost gv = value;
                            map.insert(key, value);
                            proof {
                                crate::binary::lemma_entry_models_insert(before, gk, gv);
                                f = (f - 1) as nat;
                            }
                            k = j;
                            continue;
                        },
                    }
                }
            },
            XmlToken::End(name) => {
                if str_eq(name.as_str(), "struct") {
                    let ghost ms = spec_entry_models(map.spec_entries());
                    let result = OSD::Dict(map);
                    proof {
                        reveal(spec_entry_model);
                    }
                    assert(result.model()->Dict_0 =~= ms);
                    return Ok((result, k + 1));
                }
            },
            XmlToken::Error(e) => {
                return Err(rpc_xml_error(e));
            },
            _ => {},
        }
        k = k + 1;
        proof {
            f = (f - 1) as nat;
        }
    }
}

/// Reads the rest of an XML-RPC struct member from event `i`: its name and
/// value.
#[verifier::loop_isolation(false)]
fn rpc_member(ev: &Vec<XmlToken>, i: usize, Ghost(fuel): Ghost<nat>) -> (r: Result<(String, OSD, usize), String>)
    requires
        i <= ev@.len(),
        fuel > ev@.len() - i,
    ensures
        match spec_rpc_member(spec_tokens(ev@), i as int, fuel, Seq::empty(), OsdModel::Undef) {
            Ok((kv, j)) => r is Ok && r->Ok_0.0@ == kv.0 && r->Ok_0.1.model() == kv.1 && r->Ok_0.2 == j,
            Err(e) => r is Err && r->Err_0@ == e,
        },
        r is Ok ==> i < r->Ok_0.2 <= ev@.len(),
    decreases fuel,
{
    let ghost evm = spec_tokens(ev@);
    let mut key = String::new();
    let mut value = OSD::Undef;
    let mut k: usize = i;
    let ghost mut f: nat = fuel;
    loop
        invariant
            i <= k <= ev@.len(),
            f <= fuel,
            f > ev@.len() - k,
            spec_rpc_member(evm, i as int, fuel, Seq::empty(), OsdModel::Undef) == spec_rpc_member(evm, k as int, f, key@, value.model()),
        decreases ev@.len() - k,
    {
        if k >= ev.len() {
            return Err("Unexpected end of XML in member".to_string());
        }
        assert(evm[k as int] == ev@[k as int]@);
        match &ev[k] {
            XmlToken::Start(name) => {
                if str_eq(name.as_str(), "name") {
                    match rpc_text(ev, k + 1) {
                        Err(e) => {
                            return Err(e);
                        },
                        Ok((t, j)) => {
                            key = t;
                            k = j;
                            proof {
                                f = (f - 1) as nat;
                            }
                            continue;
                        },
                    }
                } else if str_eq(name.as_str(), "value") {
                    match rpc_value(ev, k + 1, Ghost((f - 1) as nat)) {
                        Err(e) => {
                            return Err(e);
                        },
                        Ok((v, j)) => {
                            value = v;
                            k = j;
                            proof {
                                f = (f - 1) as nat;
                            }
                            continue;
                        },
                    }
                }
            },
            XmlToken::End(name) => {
                if str_eq(name.as_str(), "member") {
                    return Ok((key, value, k + 1));
                }
            },
            XmlToken::Error(e) => {
                return Err(rpc_xml_error(e));
            },
            _ => {},
        }
        k = k + 1;
        proof {
            f = (f - 1) as nat;
        }
    }
}

/// Reads the rest of an XML-RPC array from event `i`.
#[verifier::loop_isolation(false)]
fn rpc_array(ev: &Vec<XmlToken>, i: usize, Ghost(fuel): Ghost<nat>) -> (r: Result<(OSD, usize), String>)
    requires
        i <= ev@.len(),
        fuel > ev@.len() - i,
    ensures
        match spec_rpc_array(spec_tokens(ev@), i as int, fuel, Seq::empty()) {
            Ok((m, j)) => r is Ok && r->Ok_0.0.model() == m && r->Ok_0.1 == j,
            Err(e) => r is Err && r->Err_0@ == e,
        },
        r is Ok ==> i < r->Ok_0.1 <= ev@.len(),
    decreases fuel,
{
    let ghost evm = spec_tokens(ev@);
    let mut arr: Vec<OSD> = Vec::new();
    assert(spec_models(arr@) =~= Seq::<OsdModel>::empty());
    let mut k: usize = i;
    let ghost mut f: nat = fuel;
    loop
        invariant
            i <= k <= ev@.len(),
            f <= fuel,
            f > ev@.len() - k,
            spec_rpc_array(evm, i as int, fuel, Seq::empty()) == spec_rpc_array(evm, k as int, f, spec_models(arr@)),
        decreases ev@.len() - k,
    {
        if k >= ev.len() {
            return Err("Unexpected end of XML in array".to_string());
        }
        assert(evm[k as int] == ev@[k as int]@);
        match &ev[k] {
            XmlToken::Start(name) => {
                if str_eq(name.as_str(), "value") {
                    match rpc_value(ev, k + 1, Ghost((f - 1) as nat)) {
                        Err(e) => {
                            return Err(e);
                        },
                        Ok((v, j)) => {
                            let ghost before = spec_models(arr@);
                            arr.push(v);
                            assert(spec_models(arr@) =~= before.push(v.model()));
                            k = j;
                            proof {
                                f = (f - 1) as nat;
                            }
                            continue;
                        },
                    }
                }
            },
            XmlToken::End(name) => {
                if str_eq(name.as_str(), "array") {
                    let ghost ms = spec_models(arr@);
                    let result = OSD::Array(arr);
                    assert(result.model()->Array_0 =~= ms);
                    return Ok((result, k + 1));
                }
            },
            XmlToken::Error(e) => {
                return Err(rpc_xml_error(e));
            },
            _ => {},
        }
        k = k + 1;
        proof {
            f = (f - 1) as nat;
        }
    }
}

/// Reads the XML-RPC response of the login service: the first struct in
/// it, whether the answer is a result or a fault.
pub fn parse_xml_rpc_response(xml: &str) -> (r: Result<OSD, String>)
    ensures
        match spec_parse_xml_rpc_response(xml@) {
            Ok(m) => r is Ok && r->Ok_0.model() == m,
            Err(e) => r is Err && r->Err_0@ == e,
        },
{
    let ev = xml_tokens(xml);
    parse_xml_rpc_events(&ev)
}

/// Reads an XML-RPC response from its XML events: the first struct in it,
/// whether the answer is a result or a fault.
pub fn parse_xml_rpc_events(ev: &Vec<XmlToken>) -> (r: Result<OSD, String>)
    ensures
        match spec_rpc_response(spec_tokens(ev@), 0) {
            Ok(m) => r is Ok && r->Ok_0.model() == m,
            Err(e) => r is Err && r->Err_0@ == e,
        },
{
    let ghost evm = spec_tokens(ev@);
    let mut k: usize = 0;
    while k < ev.len()
        invariant
            k <= ev@.len(),
            evm == spec_tokens(ev@),
            spec_rpc_response(evm, 0) == spec_rpc_response(evm, k as int),
        decreases ev@.len() - k,
    {
        assert(evm[k as int] == ev@[k as int]@);
        match &ev[k] {
            XmlToken::Start(name) => {
                if str_eq(name.as_str(), "struct") {
                    return match rpc_struct(ev, k + 1, Ghost(ev@.len() as nat)) {
                        Ok((m, _)) => Ok(m),
                        Err(e) => Err(e),
                    };
                }
            },
            XmlToken::Error(e) => {
                return Err(e.clone());
            },
            _ => {},
        }
        k = k + 1;
    }
    Err("No struct found in response".to_string())
}

} // verus!
