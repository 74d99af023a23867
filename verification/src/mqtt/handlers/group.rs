//! Groups of devices.

use vstd::prelude::*;

use super::lib;
use super::lib::{
    accept, accept_caused_by, message_mentions, message_of_two, number_value, options_message,
    properties_message, rename_message, BridgeRequestType, Configuration, ConfigurationManagerInner,
    RequestResponse, TopicTracker,
};
use crate::error::ErrorWithMeta;
use crate::json;
use crate::json::JsonValue;
use crate::text;
use crate::with_source::ValueWithSource;

verus! {

/// A member of a group.
#[derive(Debug)]
pub struct BridgeGroupMember {
    /// The address of the device.
    pub ieee_address: String,
}

impl Clone for BridgeGroupMember {
    fn clone(&self) -> (r: Self)
        ensures
            r == *self,
    {
        BridgeGroupMember { ieee_address: self.ieee_address.clone() }
    }
}

/// A group of devices.
#[derive(Debug)]
pub struct BridgeGroup {
    /// The number of the group.
    pub id: usize,
    /// The name of the group.
    pub friendly_name: String,
    /// The members of the group.
    pub members: Vec<BridgeGroupMember>,
}

impl Clone for BridgeGroup {
    fn clone(&self) -> (r: Self)
        ensures
            r.id == self.id,
            r.friendly_name == self.friendly_name,
            r.members@ == self.members@,
    {
        let members = self.members.clone();
        proof {
            assert(members@ =~= self.members@);
        }
        BridgeGroup { id: self.id, friendly_name: self.friendly_name.clone(), members }
    }
}

/// The groups that Zigbee2MQTT knows.
pub type BridgeGroupsPayload = Vec<BridgeGroup>;

/// Track bridge group topic.
#[derive(Debug)]
pub struct BridgeGroupsTracker(pub TopicTracker<BridgeGroupsPayload>);

/// The index of the first group with the given number.
pub open spec fn group_with_id(groups: Seq<BridgeGroup>, id: usize) -> Option<int>
    decreases groups.len(),
{
    if groups.len() == 0 {
        None
    } else {
        match group_with_id(groups.drop_last(), id) {
            Some(i) => Some(i),
            None => if groups.last().id == id {
                Some(groups.len() - 1)
            } else {
                None
            },
        }
    }
}

/// The index of the first group with the given name.
pub open spec fn group_with_name(groups: Seq<BridgeGroup>, name: Seq<char>) -> Option<int>
    decreases groups.len(),
{
    if groups.len() == 0 {
        None
    } else {
        match group_with_name(groups.drop_last(), name) {
            Some(i) => Some(i),
            None => if groups.last().friendly_name@ == name {
                Some(groups.len() - 1)
            } else {
                None
            },
        }
    }
}

impl BridgeGroupsTracker {
    /// The topic.
    pub fn topic() -> (r: &'static str)
        ensures
            r@ == "bridge/groups"@,
    {
        "bridge/groups"
    }

    /// Find a group by its number.
    pub fn get_by_id(groups: &BridgeGroupsPayload, id: usize) -> (r: Option<usize>)
        ensures
            match r {
                Some(i) => i < groups@.len() && group_with_id(groups@, id) == Some(i as int),
                None => group_with_id(groups@, id) is None,
            },
    {
        let mut found: Option<usize> = None;
        proof {
            assert(groups@.take(0) =~= Seq::empty());
        }
        for i in 0..groups.len()
            invariant
                match found {
                    Some(k) => k < i && group_with_id(groups@.take(i as int), id) == Some(
                        k as int,
                    ),
                    None => group_with_id(groups@.take(i as int), id) is None,
                },
        {
            proof {
                assert(groups@.take(i + 1).drop_last() =~= groups@.take(i as int));
            }
            if found.is_none() && groups[i].id == id {
                found = Some(i);
            }
        }
        proof {
            assert(groups@.take(groups@.len() as int) =~= groups@);
        }
        found
    }

    /// Find a group by its name.
    pub fn get_by_friendly_name(groups: &BridgeGroupsPayload, friendly_name: &str) -> (r: Option<
        usize,
    >)
        ensures
            match r {
                Some(i) => i < groups@.len() && group_with_name(groups@, friendly_name@) == Some(
                    i as int,
                ),
                None => group_with_name(groups@, friendly_name@) is None,
            },
    {
        let mut found: Option<usize> = None;
        proof {
            assert(groups@.take(0) =~= Seq::empty());
        }
        for i in 0..groups.len()
            invariant
                match found {
                    Some(k) => k < i && group_with_name(groups@.take(i as int), friendly_name@)
                        == Some(k as int),
                    None => group_with_name(groups@.take(i as int), friendly_name@) is None,
                },
        {
            proof {
                assert(groups@.take(i + 1).drop_last() =~= groups@.take(i as int));
            }
            if found.is_none() && text::same_text(groups[i].friendly_name.as_str(), friendly_name) {
                found = Some(i);
            }
        }
        proof {
            assert(groups@.take(groups@.len() as int) =~= groups@);
        }
        found
    }
}

fn number(id: usize) -> (r: String)
    ensures
        r@ == text::decimal(id as nat),
{
    text::decimal_text(id as u64)
}

/// Create groups.
#[derive(Debug)]
pub struct Creator;

/// A request to create a group.
#[derive(Debug)]
pub struct CreateRequest {
    /// The number that the group gets. Zigbee2MQTT picks one if there is none.
    pub id: ValueWithSource<Option<usize>>,
    /// The name of the group.
    pub friendly_name: ValueWithSource<String>,
}

/// A group that was created.
#[derive(Debug)]
pub struct CreateResponse {
    /// The number of the group.
    pub id: usize,
    /// The name of the group.
    pub friendly_name: String,
}

/// Whether a message mentions the number that was asked for.
pub open spec fn mentions_number(message: Seq<char>, id: Option<usize>) -> bool {
    id matches Some(n) && lib::mentions(message, text::decimal(n as nat))
}

impl BridgeRequestType for Creator {
    type Request = CreateRequest;

    type Response = CreateResponse;

    open spec fn request_name() -> Seq<char> {
        "group/add"@
    }

    open spec fn document(request: CreateRequest) -> json::Json {
        json::Json::Object(
            seq![
                (
                    "id"@,
                    match request.id.inner() {
                        Some(id) => lib::number_document(id),
                        None => json::Json::Null,
                    },
                ),
                ("friendly_name"@, json::Json::Text(request.friendly_name.inner()@)),
            ],
        )
    }

    open spec fn is_related(
        request: CreateRequest,
        response: RequestResponse<CreateResponse>,
    ) -> bool {
        match response {
            RequestResponse::Success { data } => data.friendly_name@
                == request.friendly_name.inner()@,
            RequestResponse::Error { error } => mentions_number(error@, request.id.inner())
                || lib::mentions(error@, request.friendly_name.inner()@),
        }
    }

    open spec fn blame(
        request: CreateRequest,
        response: RequestResponse<CreateResponse>,
    ) -> Option<Seq<char>> {
        match response {
            RequestResponse::Error { error } => if mentions_number(error@, request.id.inner()) {
                request.id.path()
            } else {
                request.friendly_name.path()
            },
            _ => None,
        }
    }

    fn name() -> (r: &'static str) {
        "group/add"
    }

    fn message(request: &CreateRequest) -> (r: String) {
        let id = match *request.id.value() {
            Some(id) => number_value(id),
            None => JsonValue::Null,
        };
        let friendly_name = JsonValue::Text(request.friendly_name.value().clone());
        proof {
            assert(seq![("id"@, id@), ("friendly_name"@, friendly_name@)] =~= Self::document(
                *request,
            )->Object_0);
        }
        message_of_two("id", id, "friendly_name", friendly_name)
    }

    fn process_response(request: &CreateRequest, response: RequestResponse<CreateResponse>) -> (r:
        Option<Result<CreateResponse, ErrorWithMeta>>) {
        match &response {
            RequestResponse::Success { data } => {
                if text::same_text(
                    data.friendly_name.as_str(),
                    request.friendly_name.value().as_str(),
                ) {
                    accept(response)
                } else {
                    None
                }
            },
            RequestResponse::Error { error } => {
                if let Some(id) = request.id.value() {
                    if message_mentions(error.as_str(), number(*id).as_str()) {
                        return accept_caused_by(response, &request.id);
                    }
                }
                if message_mentions(error.as_str(), request.friendly_name.value().as_str()) {
                    accept_caused_by(response, &request.friendly_name)
                } else {
                    None
                }
            },
        }
    }
}

/// Delete groups.
#[derive(Debug)]
pub struct Deletor;

/// A request to delete a group.
#[derive(Debug)]
pub struct DeleteRequest {
    /// The number of the group.
    pub id: ValueWithSource<usize>,
}

/// A group that was deleted.
#[derive(Debug)]
pub struct DeleteResponse {
    /// The number of the group.
    pub id: usize,
}

/// The part of an error message that tells which group it is about.
pub open spec fn group_mention(id: usize) -> Seq<char> {
    "\"groupid\":"@ + text::decimal(id as nat)
}

impl BridgeRequestType for Deletor {
    type Request = DeleteRequest;

    type Response = DeleteResponse;

    open spec fn request_name() -> Seq<char> {
        "group/remove"@
    }

    open spec fn document(request: DeleteRequest) -> json::Json {
        json::Json::Object(seq![("id"@, lib::number_document(request.id.inner()))])
    }

    open spec fn is_related(
        request: DeleteRequest,
        response: RequestResponse<DeleteResponse>,
    ) -> bool {
        match response {
            RequestResponse::Success { data } => data.id == request.id.inner(),
            RequestResponse::Error { error } => text::occurs_in(
                group_mention(request.id.inner()),
                error@,
            ),
        }
    }

    open spec fn blame(
        request: DeleteRequest,
        response: RequestResponse<DeleteResponse>,
    ) -> Option<Seq<char>> {
        request.id.path()
    }

    fn name() -> (r: &'static str) {
        "group/remove"
    }

    fn message(request: &DeleteRequest) -> (r: String) {
        let mut properties: Vec<(&'static str, JsonValue)> = Vec::new();
        properties.push(("id", number_value(*request.id.value())));
        proof {
            assert(lib::properties_document(properties@)->Object_0 =~= Self::document(
                *request,
            )->Object_0);
        }
        properties_message(&properties)
    }

    fn process_response(request: &DeleteRequest, response: RequestResponse<DeleteResponse>) -> (r:
        Option<Result<DeleteResponse, ErrorWithMeta>>) {
        let id: usize = *request.id.value();
        let related = match &response {
            RequestResponse::Success { data } => data.id == id,
            RequestResponse::Error { error } => {
                let mention = "\"groupid\":".to_owned().concat(number(id).as_str());
                text::text_contains(error.as_str(), mention.as_str())
            },
        };
        if related {
            accept_caused_by(response, &request.id)
        } else {
            None
        }
    }
}

/// Rename groups.
#[derive(Debug)]
pub struct Renamer;

/// A request to rename a group.
#[derive(Debug)]
pub struct RenameRequest {
    /// The number of the group.
    pub from: ValueWithSource<usize>,
    /// The new name of the group.
    pub to: ValueWithSource<String>,
    /// Whether to rename the group in Home Assistant too.
    pub homeassistant_rename: bool,
}

/// A group that was renamed.
#[derive(Debug)]
pub struct RenameResponse {
    /// The new name of the group.
    pub to: String,
}

impl Renamer {
    /// The request to give a group a new name.
    pub fn request(id: ValueWithSource<usize>, friendly_name: ValueWithSource<String>) -> (r:
        RenameRequest)
        ensures
            r.from == id,
            r.to == friendly_name,
            r.homeassistant_rename,
    {
        RenameRequest { from: id, to: friendly_name, homeassistant_rename: true }
    }
}

impl BridgeRequestType for Renamer {
    type Request = RenameRequest;

    type Response = RenameResponse;

    open spec fn request_name() -> Seq<char> {
        "group/rename"@
    }

    open spec fn document(request: RenameRequest) -> json::Json {
        lib::rename_document(
            lib::number_document(request.from.inner()),
            request.to.inner()@,
            request.homeassistant_rename,
        )
    }

    open spec fn is_related(
        request: RenameRequest,
        response: RequestResponse<RenameResponse>,
    ) -> bool {
        match response {
            RequestResponse::Success { data } => data.to@ == request.to.inner()@,
            RequestResponse::Error { error } => lib::mentions(
                error@,
                text::decimal(request.from.inner() as nat),
            ) || lib::mentions(error@, request.to.inner()@),
        }
    }

    open spec fn blame(
        request: RenameRequest,
        response: RequestResponse<RenameResponse>,
    ) -> Option<Seq<char>> {
        match response {
            RequestResponse::Error { error } => if lib::mentions(
                error@,
                text::decimal(request.from.inner() as nat),
            ) {
                request.from.path()
            } else {
                request.to.path()
            },
            _ => None,
        }
    }

    fn name() -> (r: &'static str) {
        "group/rename"
    }

    fn message(request: &RenameRequest) -> (r: String) {
        rename_message(
            number_value(*request.from.value()),
            request.to.value().as_str(),
            request.homeassistant_rename,
        )
    }

    fn process_response(request: &RenameRequest, response: RequestResponse<RenameResponse>) -> (r:
        Option<Result<RenameResponse, ErrorWithMeta>>) {
        match &response {
            RequestResponse::Success { data } => {
                if text::same_text(data.to.as_str(), request.to.value().as_str()) {
                    accept(response)
                } else {
                    None
                }
            },
            RequestResponse::Error { error } => {
                if message_mentions(error.as_str(), number(*request.from.value()).as_str()) {
                    accept_caused_by(response, &request.from)
                } else if message_mentions(error.as_str(), request.to.value().as_str()) {
                    accept_caused_by(response, &request.to)
                } else {
                    None
                }
            },
        }
    }
}

/// A request to add a device to a group or to remove it from the group.
#[derive(Debug)]
pub struct MemberRequest {
    /// The number of the group.
    pub group: ValueWithSource<usize>,
    /// The address of the device.
    pub device: ValueWithSource<String>,
}

/// A device that was added or removed.
#[derive(Debug)]
pub struct MemberResponse {
    /// The number of the group.
    pub group: usize,
    /// The address of the device.
    pub device: String,
}

/// Whether a response is related to a [`MemberRequest`].
pub open spec fn member_related(
    request: MemberRequest,
    response: RequestResponse<MemberResponse>,
) -> bool {
    match response {
        RequestResponse::Success { data } => data.group == request.group.inner() && data.device@
            == request.device.inner()@,
        RequestResponse::Error { error } => lib::mentions(
            error@,
            text::decimal(request.group.inner() as nat),
        ) || lib::mentions(error@, request.device.inner()@),
    }
}

/// The source of the part of a [`MemberRequest`] that caused it to fail.
pub open spec fn member_blame(
    request: MemberRequest,
    response: RequestResponse<MemberResponse>,
) -> Option<Seq<char>> {
    match response {
        RequestResponse::Error { error } => if lib::mentions(
            error@,
            text::decimal(request.group.inner() as nat),
        ) {
            request.group.path()
        } else {
            request.device.path()
        },
        _ => None,
    }
}

fn process_member_response(request: &MemberRequest, response: RequestResponse<MemberResponse>) -> (r:
    Option<Result<MemberResponse, ErrorWithMeta>>)
    ensures
        lib::answers(
            r,
            response,
            member_related(*request, response),
            member_blame(*request, response),
        ),
{
    match &response {
        RequestResponse::Success { data } => {
            if data.group == *request.group.value() && text::same_text(
                data.device.as_str(),
                request.device.value().as_str(),
            ) {
                accept(response)
            } else {
                None
            }
        },
        RequestResponse::Error { error } => {
            if message_mentions(error.as_str(), number(*request.group.value()).as_str()) {
                accept_caused_by(response, &request.group)
            } else if message_mentions(error.as_str(), request.device.value().as_str()) {
                accept_caused_by(response, &request.device)
            } else {
                None
            }
        },
    }
}

/// The document for a request about a member.
pub open spec fn member_document(request: MemberRequest) -> json::Json {
    json::Json::Object(
        seq![
            ("group"@, lib::number_document(request.group.inner())),
            ("device"@, json::Json::Text(request.device.inner()@)),
        ],
    )
}

fn member_message(request: &MemberRequest) -> (r: String)
    ensures
        r@ == json::compact(member_document(*request)),
{
    message_of_two(
        "group",
        number_value(*request.group.value()),
        "device",
        JsonValue::Text(request.device.value().clone()),
    )
}

/// Add a device to a group.
#[derive(Debug)]
pub struct MemberAdder;

impl BridgeRequestType for MemberAdder {
    type Request = MemberRequest;

    type Response = MemberResponse;

    open spec fn request_name() -> Seq<char> {
        "group/members/add"@
    }

    open spec fn document(request: MemberRequest) -> json::Json {
        member_document(request)
    }

    open spec fn is_related(
        request: MemberRequest,
        response: RequestResponse<MemberResponse>,
    ) -> bool {
        member_related(request, response)
    }

    open spec fn blame(
        request: MemberRequest,
        response: RequestResponse<MemberResponse>,
    ) -> Option<Seq<char>> {
        member_blame(request, response)
    }

    fn name() -> (r: &'static str) {
        "group/members/add"
    }

    fn message(request: &MemberRequest) -> (r: String) {
        member_message(request)
    }

    fn process_response(request: &MemberRequest, response: RequestResponse<MemberResponse>) -> (r:
        Option<Result<MemberResponse, ErrorWithMeta>>) {
        process_member_response(request, response)
    }
}

/// Remove a device from a group.
#[derive(Debug)]
pub struct MemberRemover;

impl BridgeRequestType for MemberRemover {
    type Request = MemberRequest;

    type Response = MemberResponse;

    open spec fn request_name() -> Seq<char> {
        "group/members/remove"@
    }

    open spec fn document(request: MemberRequest) -> json::Json {
        member_document(request)
    }

    open spec fn is_related(
        request: MemberRequest,
        response: RequestResponse<MemberResponse>,
    ) -> bool {
        member_related(request, response)
    }

    open spec fn blame(
        request: MemberRequest,
        response: RequestResponse<MemberResponse>,
    ) -> Option<Seq<char>> {
        member_blame(request, response)
    }

    fn name() -> (r: &'static str) {
        "group/members/remove"
    }

    fn message(request: &MemberRequest) -> (r: String) {
        member_message(request)
    }

    fn process_response(request: &MemberRequest, response: RequestResponse<MemberResponse>) -> (r:
        Option<Result<MemberResponse, ErrorWithMeta>>) {
        process_member_response(request, response)
    }
}

/// Manage group options.
#[derive(Debug)]
pub struct OptionsManager {
    /// The number of the group.
    pub id: ValueWithSource<usize>,
}

impl OptionsManager {
    /// Create a manager for the options of a group.
    pub fn new(id: ValueWithSource<usize>) -> (r: Self)
        ensures
            r.id == id,
    {
        OptionsManager { id }
    }
}

impl ConfigurationManagerInner for OptionsManager {
    open spec fn category() -> Seq<char> {
        "option"@
    }

    open spec fn clears(key: Seq<char>) -> bool {
        key != "ID"@ && key != "friendly_name"@ && key != "devices"@
    }

    fn name() -> (r: &'static str) {
        "option"
    }

    fn clear_property(key: &str) -> (r: bool) {
        !text::same_text(key, "ID") && !text::same_text(key, "friendly_name") && !text::same_text(
            key,
            "devices",
        )
    }
}

/// The options of a group after a change.
#[derive(Debug)]
pub struct OptionsChangeResponse {
    /// The number of the group.
    pub id: usize,
    /// The options.
    pub to: Configuration,
}

/// Whether a response is related to a change of the options of a group.
pub open spec fn options_related(
    id: usize,
    response: RequestResponse<OptionsChangeResponse>,
) -> bool {
    match response {
        RequestResponse::Success { data } => data.id == id,
        RequestResponse::Error { error } => lib::mentions(error@, text::decimal(id as nat)),
    }
}

fn process_options_response(
    id: &ValueWithSource<usize>,
    response: RequestResponse<OptionsChangeResponse>,
) -> (r: Option<Result<OptionsChangeResponse, ErrorWithMeta>>)
    ensures
        lib::answers(r, response, options_related(id.inner(), response), id.path()),
{
    let wanted: usize = *id.value();
    let related = match &response {
        RequestResponse::Success { data } => data.id == wanted,
        RequestResponse::Error { error } => message_mentions(
            error.as_str(),
            number(wanted).as_str(),
        ),
    };
    if related {
        accept_caused_by(response, id)
    } else {
        None
    }
}

/// Set options of a group.
#[derive(Debug)]
pub struct OptionsSetter;

/// A request to set options of a group.
#[derive(Debug)]
pub struct OptionsSetRequest {
    /// The number of the group.
    pub id: ValueWithSource<usize>,
    /// The options to set.
    pub options: ValueWithSource<Configuration>,
}

impl BridgeRequestType for OptionsSetter {
    type Request = OptionsSetRequest;

    type Response = OptionsChangeResponse;

    open spec fn request_name() -> Seq<char> {
        "group/options"@
    }

    open spec fn document(request: OptionsSetRequest) -> json::Json {
        lib::options_document(
            lib::number_document(request.id.inner()),
            request.options.inner()@,
        )
    }

    open spec fn is_related(
        request: OptionsSetRequest,
        response: RequestResponse<OptionsChangeResponse>,
    ) -> bool {
        options_related(request.id.inner(), response)
    }

    open spec fn blame(
        request: OptionsSetRequest,
        response: RequestResponse<OptionsChangeResponse>,
    ) -> Option<Seq<char>> {
        request.id.path()
    }

    fn name() -> (r: &'static str) {
        "group/options"
    }

    fn message(request: &OptionsSetRequest) -> (r: String) {
        options_message(number_value(*request.id.value()), request.options.value())
    }

    fn process_response(
        request: &OptionsSetRequest,
        response: RequestResponse<OptionsChangeResponse>,
    ) -> (r: Option<Result<OptionsChangeResponse, ErrorWithMeta>>) {
        process_options_response(&request.id, response)
    }
}

/// Remove options of a group.
#[derive(Debug)]
pub struct OptionsUnsetter;

/// A request to remove options of a group.
#[derive(Debug)]
pub struct OptionsUnsetRequest {
    /// The number of the group.
    pub id: ValueWithSource<usize>,
    /// The options to remove.
    pub paths: ValueWithSource<Vec<String>>,
}

/// The documents for the names of options.
pub open spec fn path_documents(paths: Seq<String>) -> Seq<json::Json> {
    paths.map_values(|path: String| json::Json::Text(path@))
}

impl BridgeRequestType for OptionsUnsetter {
    type Request = OptionsUnsetRequest;

    type Response = OptionsChangeResponse;

    open spec fn request_name() -> Seq<char> {
        "group/unset-options"@
    }

    open spec fn document(request: OptionsUnsetRequest) -> json::Json {
        json::Json::Object(
            seq![
                ("id"@, lib::number_document(request.id.inner())),
                ("paths"@, json::Json::Array(path_documents(request.paths.inner()@))),
            ],
        )
    }

    open spec fn is_related(
        request: OptionsUnsetRequest,
        response: RequestResponse<OptionsChangeResponse>,
    ) -> bool {
        options_related(request.id.inner(), response)
    }

    open spec fn blame(
        request: OptionsUnsetRequest,
        response: RequestResponse<OptionsChangeResponse>,
    ) -> Option<Seq<char>> {
        request.id.path()
    }

    fn name() -> (r: &'static str) {
        "group/unset-options"
    }

    fn message(request: &OptionsUnsetRequest) -> (r: String) {
        let paths = request.paths.value();
        let mut values: Vec<JsonValue> = Vec::new();
        for i in 0..paths.len()
            invariant
                *paths == request.paths.inner(),
                values@.len() == i,
                forall|j: int|
                    0 <= j < i ==> (#[trigger] values@[j])@ == json::Json::Text(paths@[j]@),
        {
            values.push(JsonValue::Text(paths[i].clone()));
        }
        let list = JsonValue::Array(values);
        proof {
            assert(list@->Array_0 =~= path_documents(request.paths.inner()@));
        }
        message_of_two("id", number_value(*request.id.value()), "paths", list)
    }

    fn process_response(
        request: &OptionsUnsetRequest,
        response: RequestResponse<OptionsChangeResponse>,
    ) -> (r: Option<Result<OptionsChangeResponse, ErrorWithMeta>>) {
        process_options_response(&request.id, response)
    }
}

} // verus!
