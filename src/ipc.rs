use vstd::prelude::*;
use vstd::utf8::{decode_utf8, valid_utf8};

use crate::arena::{kept_below, layout_end, Arena};
use crate::bridge::{decode_text, sorted_as, SubscribeToTopicPayload};
use crate::error::{from_status, status_result, Error};
use crate::object::{copy_bytes, copy_opt_text, copy_pairs, copy_texts, pairs_view, Kv, Value};

verus! {

/// Delivery guarantee of a broker publish or subscription.
#[derive(Debug, Clone, Copy, PartialEq, Eq, Structural)]
pub enum Qos {
    AtMostOnce,
    AtLeastOnce,
}

/// The channel's code for a delivery guarantee.
pub open spec fn qos_code_spec(q: Qos) -> u8 {
    match q {
        Qos::AtMostOnce => 0,
        Qos::AtLeastOnce => 1,
    }
}

/// The channel's code for a delivery guarantee.
pub fn qos_code(q: Qos) -> (r: u8)
    ensures
        r == qos_code_spec(q),
{
    match q {
        Qos::AtMostOnce => 0,
        Qos::AtLeastOnce => 1,
    }
}

/// A point in time, as seconds and nanoseconds since the Unix epoch.
#[derive(Debug, Clone, Copy, PartialEq, Eq, Structural)]
pub struct Timestamp {
    pub secs: i64,
    pub nanos: u32,
}

impl Timestamp {
    /// The time `secs` seconds and `nanos` nanoseconds after the Unix epoch;
    /// seconds past `i64::MAX` wrap, as the channel's time type does.
    pub fn since_epoch(secs: u64, nanos: u32) -> (r: Timestamp)
        ensures
            r.secs == secs as i64,
            r.nanos == nanos,
    {
        Timestamp { secs: secs as i64, nanos }
    }
}

/// One operation to perform on the channel, with the arguments it is handed.
pub enum Request {
    Connect { socket_path: String, auth_token: String },
    PublishToTopicJson { topic: String, map: Vec<Kv> },
    PublishToTopicBinary { topic: String, payload: Vec<u8> },
    SubscribeToTopic { topic: String },
    PublishToIotCore { topic: String, payload: Vec<u8>, qos: u8 },
    SubscribeToIotCore { topic_filter: String, qos: u8 },
    GetConfig { key_path: Vec<String>, component_name: Option<String> },
    GetConfigStr { key_path: Vec<String>, component_name: Option<String> },
    UpdateConfig { key_path: Vec<String>, timestamp: Option<Timestamp>, value: Value },
    RestartComponent { component: String },
    SubscribeToConfigurationUpdate { component_name: Option<String>, key_path: Vec<String> },
    Call { operation: String, service_model_type: String, params: Vec<Kv> },
    Subscribe {
        operation: String,
        service_model_type: String,
        params: Vec<Kv>,
        aux_ctx: usize,
    },
    CloseSubscription { handle: u32 },
}

/// `path` holds the texts of `key_path`, in order.
pub open spec fn same_path(path: Vec<String>, key_path: Seq<&str>) -> bool {
    &&& path@.len() == key_path.len()
    &&& forall|i: int| 0 <= i < key_path.len() ==> (#[trigger] path@[i])@ == key_path[i]@
}

/// `name` holds the text of `component`, or is absent with it.
pub open spec fn same_name(name: Option<String>, component: Option<&str>) -> bool {
    &&& (name is Some <==> component is Some)
    &&& (name matches Some(s) ==> s@ == component->0@)
}

/// Whether a connect attempt goes to the channel: only while not connected.
/// Otherwise it fails with `Failure`.
pub open spec fn connect_outcome(connected: bool) -> Result<(), Error> {
    if connected {
        Err(Error::Failure)
    } else {
        Ok(())
    }
}

/// The connection state after the channel answered a connect attempt with
/// `status`: connected once any attempt succeeded.
pub open spec fn connected_after(connected: bool, status: u32) -> bool {
    connected || status_result(status) is Ok
}

/// Once a connect attempt has succeeded, a further attempt fails with
/// `Failure` and does not reach the channel.
pub proof fn lemma_connect_once(connected: bool, status: u32)
    requires
        status_result(status) is Ok,
    ensures
        connect_outcome(connected_after(connected, status)) == Err::<(), Error>(Error::Failure),
{
}

/// A map published as structured data and echoed back by the channel, then
/// sorted by kind, gives back the same entries in the same order.
pub proof fn lemma_publish_echo(sent: Seq<Kv>, encoded: Vec<Kv>, echoed: SubscribeToTopicPayload)
    requires
        pairs_view(encoded@) == pairs_view(sent),
        sorted_as(Value::KvMap(encoded), echoed),
    ensures
        echoed matches SubscribeToTopicPayload::Json(q) && pairs_view(q@) == pairs_view(sent),
{
}

/// The client's side of the channel: the connection state, and the requests
/// that each operation hands to the channel.
#[derive(Debug)]
pub struct Sdk {
    connected: bool,
}

impl Sdk {
    /// A connect attempt has succeeded.
    pub closed spec fn is_connected(&self) -> bool {
        self.connected
    }

    /// A client that is not connected yet.
    pub fn init() -> (r: Sdk)
        ensures
            !r.is_connected(),
    {
        Sdk { connected: false }
    }

    /// A connect attempt has succeeded.
    pub fn connected(&self) -> (r: bool)
        ensures
            r == self.is_connected(),
    {
        self.connected
    }

    /// Connects with the socket path and token that the environment gives;
    /// a missing one is `Config`.
    pub fn connect(&self, socket_path: Option<&str>, auth_token: Option<&str>) -> (r: Result<
        Request,
        Error,
    >)
        ensures
            socket_path is None || auth_token is None ==> r == Err::<Request, Error>(Error::Config),
            socket_path is Some && auth_token is Some ==> {
                &&& (r is Ok <==> connect_outcome(self.is_connected()) is Ok)
                &&& (r is Err ==> r == Err::<Request, Error>(Error::Failure))
                &&& (r is Ok ==> (r matches Ok(Request::Connect { socket_path: p, auth_token: t })
                    && p@ == socket_path->0@ && t@ == auth_token->0@))
            },
    {
        match (socket_path, auth_token) {
            (Some(p), Some(t)) => self.connect_with_token(p, t),
            _ => Err(Error::Config),
        }
    }

    /// The request that connects to the channel, or `Failure` when a connect
    /// attempt has already succeeded: then nothing goes to the channel.
    pub fn connect_with_token(&self, socket_path: &str, auth_token: &str) -> (r: Result<
        Request,
        Error,
    >)
        ensures
            r is Ok <==> connect_outcome(self.is_connected()) is Ok,
            r is Err ==> r == Err::<Request, Error>(Error::Failure),
            r is Ok ==> (r matches Ok(Request::Connect { socket_path: p, auth_token: t }) && p@
                == socket_path@ && t@ == auth_token@),
    {
        if self.connected {
            return Err(Error::Failure);
        }
        Ok(Request::Connect { socket_path: socket_path.to_owned(), auth_token: auth_token.to_owned() })
    }

    /// Records the channel's answer to a connect attempt.
    pub fn connect_done(&mut self, status: u32) -> (r: Result<(), Error>)
        ensures
            r == status_result(status),
            final(self).is_connected() == connected_after(old(self).is_connected(), status),
    {
        let r = from_status(status);
        if r.is_ok() {
            self.connected = true;
        }
        r
    }

    /// The request that publishes a map to a local topic.
    pub fn publish_to_topic_json(&self, topic: &str, payload: &[Kv]) -> (r: Request)
        ensures
            r matches Request::PublishToTopicJson { topic: t, map: p } && t@ == topic@
                && pairs_view(p@) == pairs_view(payload@),
    {
        Request::PublishToTopicJson { topic: topic.to_owned(), map: copy_pairs(payload) }
    }

    /// The request that publishes bytes to a local topic.
    pub fn publish_to_topic_binary(&self, topic: &str, payload: &[u8]) -> (r: Request)
        ensures
            r matches Request::PublishToTopicBinary { topic: t, payload: p } && t@ == topic@ && p@
                == payload@,
    {
        Request::PublishToTopicBinary { topic: topic.to_owned(), payload: copy_bytes(payload) }
    }

    /// The request that subscribes to a local topic. The channel's answer
    /// goes to [`crate::subscription::Registry::register`], and each event
    /// through [`crate::bridge::topic_event`].
    pub fn subscribe_to_topic(&self, topic: &str) -> (r: Request)
        ensures
            r matches Request::SubscribeToTopic { topic: t } && t@ == topic@,
    {
        Request::SubscribeToTopic { topic: topic.to_owned() }
    }

    /// The request that publishes bytes to the backend broker.
    pub fn publish_to_iot_core(&self, topic: &str, payload: &[u8], qos: Qos) -> (r: Request)
        ensures
            r matches Request::PublishToIotCore { topic: t, payload: p, qos: q } && t@ == topic@
                && p@ == payload@ && q == qos_code_spec(qos),
    {
        Request::PublishToIotCore {
            topic: topic.to_owned(),
            payload: copy_bytes(payload),
            qos: qos_code(qos),
        }
    }

    /// The request that subscribes to the backend broker. Each event goes
    /// through [`crate::bridge::iot_core_event`].
    pub fn subscribe_to_iot_core(&self, topic_filter: &str, qos: Qos) -> (r: Request)
        ensures
            r matches Request::SubscribeToIotCore { topic_filter: t, qos: q } && t@ == topic_filter@
                && q == qos_code_spec(qos),
    {
        Request::SubscribeToIotCore { topic_filter: topic_filter.to_owned(), qos: qos_code(qos) }
    }

    /// The request that reads a configuration value.
    pub fn get_config(&self, key_path: &[&str], component_name: Option<&str>) -> (r: Request)
        ensures
            r matches Request::GetConfig { key_path: k, component_name: c } && same_path(
                k,
                key_path@,
            ) && same_name(c, component_name),
    {
        Request::GetConfig {
            key_path: copy_texts(key_path),
            component_name: copy_opt_text(component_name),
        }
    }

    /// What a configuration read gives: the channel's error, or the value
    /// laid out in the caller's arena (`OutOfMemory` where it does not fit).
    /// A successful read takes exactly the value's layout from the arena's
    /// mark, so equal values in equally filled arenas take the same bytes;
    /// bytes handed out before the read keep their contents in every case.
    pub fn get_config_done(&self, status: u32, value: &Value, result_mem: &mut Arena) -> (r: Result<
        Value,
        Error,
    >)
        requires
            old(result_mem).wf(),
        ensures
            final(result_mem).wf(),
            final(result_mem).cap() == old(result_mem).cap(),
            kept_below(old(result_mem).contents(), final(result_mem).contents(), old(result_mem).taken()),
            status_result(status) matches Err(e) ==> {
                &&& r == Err::<Value, Error>(e)
                &&& final(result_mem).taken() == old(result_mem).taken()
                &&& final(result_mem).contents() == old(result_mem).contents()
            },
            status_result(status) is Ok ==> {
                &&& (r is Ok <==> layout_end(value@, old(result_mem).taken()) <= old(result_mem).cap())
                &&& (r matches Ok(v) ==> v@ == value@)
                &&& (r is Ok ==> final(result_mem).taken() == layout_end(value@, old(result_mem).taken()))
                &&& (r is Err ==> r == Err::<Value, Error>(Error::OutOfMemory))
            },
            r is Ok && value is Buf ==> final(result_mem).contents().subrange(
                old(result_mem).taken(),
                old(result_mem).taken() + value->Buf_0@.len(),
            ) == value->Buf_0@,
    {
        match from_status(status) {
            Ok(()) => result_mem.materialize(value),
            Err(e) => Err(e),
        }
    }

    /// The request that reads a configuration value as text.
    pub fn get_config_str(&self, key_path: &[&str], component_name: Option<&str>) -> (r: Request)
        ensures
            r matches Request::GetConfigStr { key_path: k, component_name: c } && same_path(
                k,
                key_path@,
            ) && same_name(c, component_name),
    {
        Request::GetConfigStr {
            key_path: copy_texts(key_path),
            component_name: copy_opt_text(component_name),
        }
    }

    /// What a configuration read as text gives: the channel's error, the
    /// text in the caller's buffer that the channel filled, or `Utf8` where
    /// the stored bytes are not UTF-8.
    pub fn get_config_str_done<'a>(&self, status: u32, value: &'a [u8]) -> (r: Result<&'a str, Error>)
        ensures
            status_result(status) matches Err(e) ==> r == Err::<&'a str, Error>(e),
            status_result(status) is Ok ==> {
                &&& (r is Ok <==> valid_utf8(value@))
                &&& (r matches Ok(s) ==> s@ == decode_utf8(value@))
                &&& (r is Err ==> r == Err::<&'a str, Error>(Error::Utf8))
            },
    {
        match from_status(status) {
            Ok(()) => decode_text(value),
            Err(e) => Err(e),
        }
    }

    /// The request that merges a value into the configuration. A timestamp,
    /// when given, takes part in the channel's last-writer-wins resolution;
    /// without one the channel takes the current time.
    pub fn update_config(&self, key_path: &[&str], timestamp: Option<Timestamp>, value_to_merge: &Value) -> (r: Request)
        ensures
            r matches Request::UpdateConfig { key_path: k, timestamp: t, value: v } && same_path(
                k,
                key_path@,
            ) && t == timestamp && v@ == value_to_merge@,
    {
        Request::UpdateConfig {
            key_path: copy_texts(key_path),
            timestamp,
            value: value_to_merge.deep_copy(),
        }
    }

    /// The request that restarts a component.
    pub fn restart_component(&self, component_name: &str) -> (r: Request)
        ensures
            r matches Request::RestartComponent { component: c } && c@ == component_name@,
    {
        Request::RestartComponent { component: component_name.to_owned() }
    }

    /// The request that subscribes to configuration changes. Each event goes
    /// through [`crate::bridge::config_update_event`].
    pub fn subscribe_to_configuration_update(&self, component_name: Option<&str>, key_path: &[&str]) -> (r: Request)
        ensures
            r matches Request::SubscribeToConfigurationUpdate { component_name: c, key_path: k }
                && same_path(k, key_path@) && same_name(c, component_name),
    {
        Request::SubscribeToConfigurationUpdate {
            component_name: copy_opt_text(component_name),
            key_path: copy_texts(key_path),
        }
    }

    /// The request for a one-shot call of a named remote operation. Its
    /// reply goes to the callback once: a result map as it is, an error
    /// through [`crate::bridge::call_error`]; the callback's outcome goes
    /// back through [`crate::error::to_status`].
    pub fn call(&self, operation: &str, service_model_type: &str, params: &[Kv]) -> (r: Request)
        ensures
            r matches Request::Call { operation: o, service_model_type: t, params: p } && o@
                == operation@ && t@ == service_model_type@ && pairs_view(p@) == pairs_view(params@),
    {
        Request::Call {
            operation: operation.to_owned(),
            service_model_type: service_model_type.to_owned(),
            params: copy_pairs(params),
        }
    }

    /// The request for a call that goes on with a stream of events. The
    /// first reply is handled as for [`Sdk::call`]; the events go through
    /// [`crate::bridge::stream_event`], with `aux_ctx` handed back unchanged.
    pub fn subscribe(&self, operation: &str, service_model_type: &str, params: &[Kv], aux_ctx: usize) -> (r: Request)
        ensures
            r matches Request::Subscribe {
                operation: o,
                service_model_type: t,
                params: p,
                aux_ctx: a,
            } && o@ == operation@ && t@ == service_model_type@ && pairs_view(p@) == pairs_view(
                params@,
            ) && a == aux_ctx,
    {
        Request::Subscribe {
            operation: operation.to_owned(),
            service_model_type: service_model_type.to_owned(),
            params: copy_pairs(params),
            aux_ctx,
        }
    }

    /// The request that tears down a native subscription, as
    /// [`crate::subscription::Registry::close`] hands its handle out.
    pub fn close_subscription(&self, handle: u32) -> (r: Request)
        ensures
            r matches Request::CloseSubscription { handle: h } && h == handle,
    {
        Request::CloseSubscription { handle }
    }
}

} // verus!
