//! The requests that an export sends: an endpoint and its form fields.

use crate::model::Channel;
use vstd::prelude::*;

verus! {

/// The two endpoints of the API that an export calls.
#[derive(Clone, Copy, Debug, PartialEq, Eq, Structural)]
pub enum Endpoint {
    /// Lists the channels of the workspace.
    ChannelList,
    /// Returns one page of a channel's history.
    ChannelHistory,
}

/// The token that authenticates every request. It is never empty.
#[derive(Debug)]
pub struct Token {
    value: String,
}

impl View for Token {
    type V = Seq<char>;

    closed spec fn view(&self) -> Seq<char> {
        self.value@
    }
}

impl Token {
    #[verifier::type_invariant]
    spec fn not_empty(self) -> bool {
        self.value@.len() > 0
    }

    /// Takes a text as the token; an empty text is no token.
    pub fn new(value: String) -> (r: Option<Token>)
        ensures
            r is Some <==> value@.len() > 0,
            r matches Some(token) ==> token@ == value@,
    {
        if value.as_str().is_empty() {
            None
        } else {
            Some(Token { value })
        }
    }

    /// The token's text.
    pub fn as_str(&self) -> (r: &str)
        ensures
            r@ == self@,
            r@.len() > 0,
    {
        proof {
            use_type_invariant(self);
        }
        self.value.as_str()
    }
}

/// The views of a list of form fields, in order.
pub open spec fn fields_view(fields: Seq<(String, String)>) -> Seq<(Seq<char>, Seq<char>)> {
    Seq::new(fields.len(), |i: int| (fields[i].0@, fields[i].1@))
}

/// One call of the API, without the token: the endpoint, and the form fields
/// as pairs of key and value.
#[derive(Debug, PartialEq, Eq)]
pub struct Request {
    pub endpoint: Endpoint,
    pub params: Vec<(String, String)>,
}

/// The mathematical value of a [`Request`].
pub struct RequestView {
    pub endpoint: Endpoint,
    pub params: Seq<(Seq<char>, Seq<char>)>,
}

impl View for Request {
    type V = RequestView;

    open spec fn view(&self) -> RequestView {
        RequestView { endpoint: self.endpoint, params: fields_view(self.params@) }
    }
}

/// The kinds of channel that a listing asks for: private and public ones.
pub open spec fn channel_kinds() -> Seq<char> {
    "private_channel,public_channel"@
}

/// The field that carries a cursor; no field where there is no cursor.
pub open spec fn cursor_field(cursor: Option<Seq<char>>) -> Seq<(Seq<char>, Seq<char>)> {
    match cursor {
        Some(c) => seq![("cursor"@, c)],
        None => Seq::empty(),
    }
}

/// The request for one page of the channel listing.
pub open spec fn channel_list_request(cursor: Option<Seq<char>>) -> RequestView {
    RequestView {
        endpoint: Endpoint::ChannelList,
        params: seq![("types"@, channel_kinds())] + cursor_field(cursor),
    }
}

/// The request for one page of the history of the channel `id`.
pub open spec fn channel_history_request(id: Seq<char>, cursor: Option<Seq<char>>) -> RequestView {
    RequestView {
        endpoint: Endpoint::ChannelHistory,
        params: seq![("channel"@, id)] + cursor_field(cursor),
    }
}

/// The form that is sent for a request: the token, then the request's fields.
pub open spec fn form_of(token: Seq<char>, request: RequestView) -> Seq<(Seq<char>, Seq<char>)> {
    seq![("token"@, token)] + request.params
}

impl RequestView {
    /// The cursor that the request carries, if it carries one.
    pub open spec fn cursor(self) -> Option<Seq<char>> {
        if self.params.len() == 2 {
            Some(self.params[1].1)
        } else {
            None
        }
    }
}

/// A request carries the cursor it was made with, and none where it was
/// made without one.
pub proof fn lemma_request_cursor(id: Seq<char>, cursor: Option<Seq<char>>)
    ensures
        channel_history_request(id, cursor).cursor() == cursor,
        channel_list_request(cursor).cursor() == cursor,
{
}

/// The keys of a form differ from one another.
pub proof fn lemma_form_keys_differ(token: Seq<char>, id: Seq<char>, cursor: Option<Seq<char>>)
    ensures
        ({
            let form = form_of(token, channel_history_request(id, cursor));
            forall|i: int, j: int| 0 <= i < j < form.len() ==> form[i].0 != form[j].0
        }),
        ({
            let form = form_of(token, channel_list_request(cursor));
            forall|i: int, j: int| 0 <= i < j < form.len() ==> form[i].0 != form[j].0
        }),
{
    reveal_strlit("token");
    reveal_strlit("channel");
    reveal_strlit("cursor");
    reveal_strlit("types");
    assert("token"@.len() == 5 && "channel"@.len() == 7 && "cursor"@.len() == 6);
    assert("types"@[1] == 'y' && "token"@[1] == 'o');
}

fn push_cursor(params: &mut Vec<(String, String)>, cursor: Option<&String>)
    ensures
        fields_view(final(params)@) == fields_view(old(params)@) + cursor_field(
            match cursor {
                Some(c) => Some(c@),
                None => None,
            },
        ),
{
    let ghost before = fields_view(params@);
    match cursor {
        Some(c) => {
            params.push(("cursor".to_owned(), c.clone()));
            assert(fields_view(params@) == before + seq![("cursor"@, c@)]);
        },
        None => {
            assert(before + Seq::<(Seq<char>, Seq<char>)>::empty() == before);
        },
    }
}

impl Request {
    /// The request for one page of the channel listing: the first page
    /// without a cursor, a later one with the cursor that the page before it
    /// gave.
    pub fn channel_list(cursor: Option<&String>) -> (r: Request)
        ensures
            r@ == channel_list_request(
                match cursor {
                    Some(c) => Some(c@),
                    None => None,
                },
            ),
    {
        let mut params: Vec<(String, String)> = Vec::new();
        params.push(("types".to_owned(), "private_channel,public_channel".to_owned()));
        assert(fields_view(params@) == seq![("types"@, channel_kinds())]);
        push_cursor(&mut params, cursor);
        Request { endpoint: Endpoint::ChannelList, params }
    }

    /// The request for one page of a channel's history: the first page
    /// without a cursor, a later one with the cursor that the page before it
    /// gave.
    pub fn channel_history(channel: &Channel, cursor: Option<&String>) -> (r: Request)
        ensures
            r@ == channel_history_request(
                channel@.id,
                match cursor {
                    Some(c) => Some(c@),
                    None => None,
                },
            ),
    {
        let mut params: Vec<(String, String)> = Vec::new();
        params.push(("channel".to_owned(), channel.id.clone()));
        assert(fields_view(params@) == seq![("channel"@, channel@.id)]);
        push_cursor(&mut params, cursor);
        Request { endpoint: Endpoint::ChannelHistory, params }
    }

    /// The form to send: the token under `token`, then the request's fields.
    pub fn form(&self, token: &Token) -> (r: Vec<(String, String)>)
        ensures
            fields_view(r@) == form_of(token@, self@),
    {
        let mut fields: Vec<(String, String)> = Vec::new();
        fields.push(("token".to_owned(), token.as_str().to_owned()));
        let mut i: usize = 0;
        while i < self.params.len()
            invariant
                i <= self.params.len(),
                fields_view(fields@) == seq![("token"@, token@)] + fields_view(self.params@).take(
                    i as int,
                ),
            decreases self.params.len() - i,
        {
            let ghost before = fields_view(fields@);
            fields.push((self.params[i].0.clone(), self.params[i].1.clone()));
            assert(fields_view(fields@) == before.push(fields_view(self.params@)[i as int]));
            assert(fields_view(self.params@).take(i + 1) == fields_view(self.params@).take(
                i as int,
            ).push(fields_view(self.params@)[i as int]));
            i += 1;
        }
        assert(fields_view(self.params@).take(i as int) == fields_view(self.params@));
        fields
    }
}

} // verus!
