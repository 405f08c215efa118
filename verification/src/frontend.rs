//! The page that asks the alias-based shortener for a short URL: the state
//! it shows and how input, the button and the service's answer change it.

use vstd::prelude::*;

use crate::backend::handler::{ShortenDataResponse, ShortenRequest};

verus! {

/// The domain under which the page asks for short URLs.
pub open spec fn default_domain() -> Seq<char> {
    "localhost:8080"@
}

/// What the page holds: the URL typed in and the short URL last received.
#[derive(Clone)]
pub struct FrameState {
    pub long_url: String,
    pub short_url: String,
}

impl FrameState {
    /// Both fields empty, as the page starts.
    pub fn new() -> (state: FrameState)
        ensures
            state.long_url@ == Seq::<char>::empty(),
            state.short_url@ == Seq::<char>::empty(),
    {
        FrameState { long_url: String::new(), short_url: String::new() }
    }

    /// The URL field changed to `value`.
    pub fn on_input(&mut self, value: String)
        ensures
            final(self).long_url == value,
            final(self).short_url == old(self).short_url,
    {
        self.long_url = value;
    }

    /// The request that the "Shorten" button sends: the typed URL under the
    /// page's domain.
    pub fn shorten_request(&self) -> (request: ShortenRequest)
        ensures
            request.url@ == self.long_url@,
            request.domain@ == default_domain(),
    {
        ShortenRequest { url: self.long_url.clone(), domain: "localhost:8080".to_owned() }
    }

    /// The service answered: a created link replaces the short URL shown;
    /// a failed request leaves the page as it was.
    pub fn on_response(&mut self, response: Option<ShortenDataResponse>)
        ensures
            final(self).long_url == old(self).long_url,
            match response {
                Some(body) => final(self).short_url == body.data.short_url,
                None => final(self).short_url == old(self).short_url,
            },
    {
        match response {
            Some(body) => {
                self.short_url = body.data.short_url;
            },
            None => {},
        }
    }
}

} // verus!
