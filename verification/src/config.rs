//! The caller-supplied description of a dedicated server, with its JSON
//! serialization, and the service-returned client configuration.
use crate::json::{
    all_plain, key_at, key_starts_field, lemma_escape_plain, lemma_read_string_plain, push_escaped,
    push_u64, spec_escape, spec_field_value_start, spec_find_key, spec_json_string_field,
    spec_prev_non_ws, spec_skip_ws, spec_u64_string,
};
use vstd::prelude::*;
use vstd::string::StringExecFns;

verus! {

/// A dedicated-server instance to register: a pure value object whose only
/// lifecycle is the call that serializes it.
#[derive(Debug, Clone, Copy, PartialEq, Eq)]
pub struct ServerConfig<'a> {
    pub title_id: &'a str,
    pub script_file_name: &'a str,
    pub port: u16,
    pub player_count_max: u8,
    pub player_count: u8,
    pub server_name: &'a str,
    pub is_private: bool,
    pub ip: &'a str,
    pub game_mode_custom_data: &'a str,
    pub game_mode: &'a str,
}

#[verifier::ext_equal]
pub struct ServerConfigModel {
    pub title_id: Seq<char>,
    pub script_file_name: Seq<char>,
    pub port: u16,
    pub player_count_max: u8,
    pub player_count: u8,
    pub server_name: Seq<char>,
    pub is_private: bool,
    pub ip: Seq<char>,
    pub game_mode_custom_data: Seq<char>,
    pub game_mode: Seq<char>,
}

impl<'a> View for ServerConfig<'a> {
    type V = ServerConfigModel;

    open spec fn view(&self) -> ServerConfigModel {
        ServerConfigModel {
            title_id: self.title_id@,
            script_file_name: self.script_file_name@,
            port: self.port,
            player_count_max: self.player_count_max,
            player_count: self.player_count,
            server_name: self.server_name@,
            is_private: self.is_private,
            ip: self.ip@,
            game_mode_custom_data: self.game_mode_custom_data@,
            game_mode: self.game_mode@,
        }
    }
}

/// The JSON object that describes a server: the ten fields under their
/// camelCase names, in declaration order, strings escaped.
pub open spec fn spec_server_config_json(c: ServerConfigModel) -> Seq<char> {
    "{\"titleId\":\""@ + spec_escape(c.title_id) + "\",\"scriptFileName\":\""@ + spec_escape(
        c.script_file_name,
    ) + "\",\"port\":"@ + spec_u64_string(c.port as int) + ",\"playerCountMax\":"@
        + spec_u64_string(c.player_count_max as int) + ",\"playerCount\":"@ + spec_u64_string(
        c.player_count as int,
    ) + ",\"serverName\":\""@ + spec_escape(c.server_name) + "\",\"isPrivate\":"@ + (
    if c.is_private {
        "true"@
    } else {
        "false"@
    }) + ",\"ip\":\""@ + spec_escape(c.ip) + "\",\"gameModeCustomData\":\""@ + spec_escape(
        c.game_mode_custom_data,
    ) + "\",\"gameMode\":\""@ + spec_escape(c.game_mode) + "\"}"@
}

impl<'a> ServerConfig<'a> {
    /// Serializes the description to its JSON object.
    pub fn to_json(&self) -> (r: String)
        ensures
            r@ == spec_server_config_json(self@),
    {
        let mut out = String::new();
        out.append("{\"titleId\":\"");
        push_escaped(&mut out, self.title_id);
        out.append("\",\"scriptFileName\":\"");
        push_escaped(&mut out, self.script_file_name);
        out.append("\",\"port\":");
        push_u64(&mut out, self.port as u64);
        out.append(",\"playerCountMax\":");
        push_u64(&mut out, self.player_count_max as u64);
        out.append(",\"playerCount\":");
        push_u64(&mut out, self.player_count as u64);
        out.append(",\"serverName\":\"");
        push_escaped(&mut out, self.server_name);
        out.append("\",\"isPrivate\":");
        if self.is_private {
            out.append("true");
        } else {
            out.append("false");
        }
        out.append(",\"ip\":\"");
        push_escaped(&mut out, self.ip);
        out.append("\",\"gameModeCustomData\":\"");
        push_escaped(&mut out, self.game_mode_custom_data);
        out.append("\",\"gameMode\":\"");
        push_escaped(&mut out, self.game_mode);
        out.append("\"}");
        proof {
            assert(out@ =~= spec_server_config_json(self@));
        }
        out
    }
}

/// Serialization round-trips: reading the `titleId` field back out of a
/// serialized description, with the same scanner every reader of this library
/// uses, returns exactly the value that was serialized — for a value made of
/// plain characters. (A value that needs escaping reads back as no value at
/// all, never as a wrong one.)
pub proof fn lemma_title_id_round_trips(c: ServerConfigModel)
    requires
        all_plain(c.title_id),
    ensures
        spec_json_string_field(spec_server_config_json(c), "titleId"@) == Some(c.title_id),
{
    let s = spec_server_config_json(c);
    let key = "titleId"@;
    let tl = c.title_id.len() as int;
    reveal_strlit("{\"titleId\":\"");
    reveal_strlit("titleId");
    reveal_strlit("\",\"scriptFileName\":\"");
    lemma_escape_plain(c.title_id);
    assert(s[0] == '{');
    assert(s[1] == '"');
    assert(s[9] == '"');
    assert(s[10] == ':');
    assert(s[11] == '"');
    assert(key_at(s, key, 1)) by {
        assert(s.subrange(2, 9) =~= key);
    }
    assert(spec_prev_non_ws(s, 1) == 0);
    assert(key_starts_field(s, key, 1));
    assert(!key_at(s, key, 0));
    assert(spec_find_key(s, key, 1) == Some(1int));
    assert(spec_find_key(s, key, 0) == Some(1int));
    assert(spec_skip_ws(s, 10) == 10);
    assert(spec_skip_ws(s, 11) == 11);
    assert(spec_field_value_start(s, key) == Some(11int));
    assert(s[12 + tl] == '"');
    assert(forall|k: int| 12 <= k < 12 + tl ==> s[k] == c.title_id[k - 12]);
    lemma_read_string_plain(s, 12, 12 + tl);
    assert(s.subrange(12, 12 + tl) =~= c.title_id);
}

/// The service-returned client configuration.
#[derive(Debug, Clone, PartialEq, Eq)]
pub struct ClientConfig {
    pub settings: ClientConfigSettings,
}

#[derive(Debug, Clone, PartialEq, Eq)]
pub struct ClientConfigSettings {
    pub client_ip: String,
}

} // verus!
