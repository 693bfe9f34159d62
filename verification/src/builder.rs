//! The connection configuration and its builder.
//!
//! A configuration is made once, by `ConfigBuilder::build`, and is not changed after
//! that: nothing in this library takes one by mutable reference.

use vstd::prelude::*;
use crate::handshake::{Header, HeaderView};

verus! {

/// How to reach the peer.
#[derive(Clone, Debug, PartialEq, Eq)]
pub struct Config {
    /// The credential for basic authentication, `user:password`, if any.
    pub auth: Option<String>,
    /// The URL of the peer.
    pub connect: String,
    /// The caller's own headers for the handshake, in the order in which they were given.
    pub headers: Vec<Header>,
    /// The name of the subprotocol, if any. The handshake does not read it.
    pub subprotocol: Option<String>,
}

/// What a `Config` stands for.
pub struct ConfigView {
    pub auth: Option<Seq<char>>,
    pub connect: Seq<char>,
    pub headers: Seq<HeaderView>,
    pub subprotocol: Option<Seq<char>>,
}

impl View for Config {
    type V = ConfigView;

    open spec fn view(&self) -> ConfigView {
        ConfigView {
            auth: self.auth.deep_view(),
            connect: self.connect@,
            headers: self.headers.deep_view(),
            subprotocol: self.subprotocol.deep_view(),
        }
    }
}

/// Collects the parts of a `Config`.
#[derive(Debug)]
pub struct ConfigBuilder {
    auth: Option<String>,
    connect: Option<String>,
    headers: Vec<Header>,
    subprotocol: Option<String>,
}

/// What a `ConfigBuilder` stands for: the parts given so far.
pub struct ConfigBuilderView {
    pub auth: Option<Seq<char>>,
    pub connect: Option<Seq<char>>,
    pub headers: Seq<HeaderView>,
    pub subprotocol: Option<Seq<char>>,
}

impl ConfigBuilderView {
    /// The builder to which nothing was given.
    pub open spec fn empty() -> ConfigBuilderView {
        ConfigBuilderView {
            auth: None,
            connect: None,
            headers: Seq::empty(),
            subprotocol: None,
        }
    }
}

impl View for ConfigBuilder {
    type V = ConfigBuilderView;

    closed spec fn view(&self) -> ConfigBuilderView {
        ConfigBuilderView {
            auth: self.auth.deep_view(),
            connect: self.connect.deep_view(),
            headers: self.headers.deep_view(),
            subprotocol: self.subprotocol.deep_view(),
        }
    }
}

impl Default for ConfigBuilder {
    fn default() -> (b: ConfigBuilder)
        ensures
            b@ == ConfigBuilderView::empty(),
    {
        let headers: Vec<Header> = Vec::new();
        proof {
            assert(headers.deep_view() =~= Seq::<HeaderView>::empty());
        }
        ConfigBuilder { auth: None, connect: None, headers, subprotocol: None }
    }
}

impl Config {
    /// A builder to which nothing was given yet.
    pub fn builder() -> (b: ConfigBuilder)
        ensures
            b@ == ConfigBuilderView::empty(),
    {
        ConfigBuilder::default()
    }
}

impl ConfigBuilder {
    /// Sets the URL of the peer; one given before is replaced.
    pub fn connect(self, url: String) -> (b: ConfigBuilder)
        ensures
            b@ == (ConfigBuilderView { connect: Some(url@), ..self@ }),
    {
        let mut b = self;
        b.connect = Some(url);
        b
    }

    /// Sets the credential, or takes it away with `None`.
    pub fn auth(self, auth: Option<String>) -> (b: ConfigBuilder)
        ensures
            b@ == (ConfigBuilderView { auth: auth.deep_view(), ..self@ }),
    {
        let mut b = self;
        b.auth = auth;
        b
    }

    /// Adds the header `name: value` after those given before.
    pub fn header(self, name: String, value: String) -> (b: ConfigBuilder)
        ensures
            b@ == (ConfigBuilderView {
                headers: self@.headers.push(HeaderView { name: name@, value: value@ }),
                ..self@
            }),
    {
        let mut b = self;
        b.headers.push(Header { name, value });
        proof {
            assert(b.headers.deep_view() =~= self.headers.deep_view().push(
                HeaderView { name: name@, value: value@ },
            ));
        }
        b
    }

    /// Sets the name of the subprotocol; one given before is replaced.
    pub fn subprotocol(self, name: String) -> (b: ConfigBuilder)
        ensures
            b@ == (ConfigBuilderView { subprotocol: Some(name@), ..self@ }),
    {
        let mut b = self;
        b.subprotocol = Some(name);
        b
    }

    /// Whether a URL was given, so that `build` can be called.
    pub fn has_target(&self) -> (b: bool)
        ensures
            b == (self@.connect is Some),
    {
        self.connect.is_some()
    }

    /// The configuration made of the parts given. A URL is required for a connection.
    pub fn build(self) -> (c: Config)
        requires
            self@.connect is Some,
        ensures
            c@ == (ConfigView {
                auth: self@.auth,
                connect: self@.connect->0,
                headers: self@.headers,
                subprotocol: self@.subprotocol,
            }),
    {
        Config {
            auth: self.auth,
            connect: self.connect.unwrap(),
            headers: self.headers,
            subprotocol: self.subprotocol,
        }
    }
}

} // verus!
