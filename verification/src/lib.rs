//! A client library for the catalog of building materials at
//! buildingtransparency.org.
//!
//! The library holds everything a query needs but the input and output
//! themselves: the configuration of a query ([`Ec3api`]), the query text of
//! a filter ([`material_filter`]), the decoders of the answers
//! ([`decode`]), the cache of materials ([`utils`]) and the course of a
//! fetch with its retries ([`fetch`]). A caller sends the requests, sleeps
//! and touches the disk as [`fetch::step`] tells it to.

pub mod decode;
pub mod error;
pub mod fetch;
pub mod json;
pub mod material_filter;
pub mod models;
pub mod retry;
pub mod text;
pub mod utils;

use std::path::PathBuf;
use vstd::prelude::*;
use vstd::string::*;

use crate::error::{ApiError, ErrorKind};
use crate::fetch::{FetchPlan, FetchPlanView, Request, RequestView};
use crate::material_filter::{compiled, convert, MaterialFilter, MaterialFilterView};
use crate::models::{materials_view, Ec3Category, Ec3Material, MaterialView, Node, TreeView};
use crate::utils::{cache_file_name, cache_file_name_of};

verus! {

/// `std::path::PathBuf`, carried through unread.
#[verifier::external_type_specification]
#[verifier::external_body]
pub struct ExPathBuf(PathBuf);

/// What a query asks the catalog for.
#[derive(Clone, Copy, Debug, PartialEq, Eq, Structural)]
pub enum Endpoint {
    Materials,
    Categories,
}

/// The jurisdiction a query is narrowed to.
#[derive(Clone, Copy, Debug, PartialEq, Eq, Structural)]
pub enum Country {
    US,
    Germany,
    UK,
    /// No jurisdiction: the query names none.
    Unspecified,
}

/// What a query returned.
#[derive(Debug)]
pub enum Ec3Result {
    Materials(Vec<Ec3Material>),
    Categories(Node<Ec3Category>),
}

/// What an [`Ec3Result`] holds.
pub enum Ec3ResultView {
    Materials(Seq<MaterialView>),
    Categories(TreeView),
}

impl View for Ec3Result {
    type V = Ec3ResultView;

    open spec fn view(&self) -> Ec3ResultView {
        match self {
            Ec3Result::Materials(ms) => Ec3ResultView::Materials(materials_view(ms@)),
            Ec3Result::Categories(tree) => Ec3ResultView::Categories(tree@),
        }
    }
}

/// The outcome of a query.
pub type APIResult = Result<Ec3Result, ApiError>;

impl Ec3Result {
    /// The materials of a result. A tree of categories holds none, which
    /// is an empty collection.
    pub fn into_materials(self) -> (r: Result<Vec<Ec3Material>, ApiError>)
        ensures
            match self {
                Ec3Result::Materials(ms) => r == Ok::<Vec<Ec3Material>, ApiError>(ms),
                Ec3Result::Categories(_) => r matches Err(e) && e@ == ErrorKind::EmptyArray,
            },
    {
        match self {
            Ec3Result::Materials(ms) => Ok(ms),
            Ec3Result::Categories(_) => Err(ApiError::EmptyArray()),
        }
    }
}

impl Endpoint {
    /// The path of the endpoint below the root of the catalog.
    pub open spec fn path_of(self) -> Seq<char> {
        match self {
            Endpoint::Materials => "materials"@,
            Endpoint::Categories => "categories/root"@,
        }
    }

    /// The path of the endpoint below the root of the catalog.
    pub fn path(self) -> (r: &'static str)
        ensures
            r@ == self.path_of(),
    {
        match self {
            Endpoint::Materials => "materials",
            Endpoint::Categories => "categories/root",
        }
    }
}

impl Country {
    /// The code that names the jurisdiction in a query; empty where there
    /// is none.
    pub open spec fn code_of(self) -> Seq<char> {
        match self {
            Country::US => "US"@,
            Country::Germany => "DE"@,
            Country::UK => "UK"@,
            Country::Unspecified => ""@,
        }
    }

    /// The code that names the jurisdiction in a query; empty where there
    /// is none.
    pub fn code(self) -> (r: &'static str)
        ensures
            r@ == self.code_of(),
    {
        match self {
            Country::US => "US",
            Country::Germany => "DE",
            Country::UK => "UK",
            Country::Unspecified => "",
        }
    }
}

/// The configuration of a query.
#[derive(Debug)]
pub struct Ec3api {
    api_key: String,
    endpoint: Endpoint,
    country: Country,
    mf: Option<MaterialFilter>,
    use_cache: bool,
    cache_dir: Option<PathBuf>,
}

/// What an [`Ec3api`] holds.
pub struct Ec3apiView {
    pub api_key: Seq<char>,
    pub endpoint: Endpoint,
    pub country: Country,
    pub mf: Option<MaterialFilterView>,
    pub use_cache: bool,
    pub cache_dir: Option<PathBuf>,
}

impl View for Ec3api {
    type V = Ec3apiView;

    closed spec fn view(&self) -> Ec3apiView {
        Ec3apiView {
            api_key: self.api_key@,
            endpoint: self.endpoint,
            country: self.country,
            mf: match self.mf {
                Some(mf) => Some(mf@),
                None => None,
            },
            use_cache: self.use_cache,
            cache_dir: self.cache_dir,
        }
    }
}

/// The address of a query: the root of the catalog, the path of the
/// endpoint and, unless there is none, the jurisdiction.
pub open spec fn url_of(endpoint: Endpoint, country: Country) -> Seq<char> {
    "https://buildingtransparency.org/api/"@ + endpoint.path_of() + if country
        == Country::Unspecified {
        Seq::<char>::empty()
    } else {
        "?jurisdiction="@ + country.code_of()
    }
}

/// The key under which the materials of a query are cached: the category
/// of its filter, or `cache` where it has no filter.
pub open spec fn cache_key_of(api: Ec3apiView) -> Seq<char> {
    match api.mf {
        Some(mf) => mf.category,
        None => "cache"@,
    }
}

/// The request of a query: its address, the bearer token made of the key,
/// and the query text of the filter, which is empty where there is no
/// filter.
pub open spec fn request_of(api: Ec3apiView) -> RequestView {
    RequestView {
        url: url_of(api.endpoint, api.country),
        authorization: "Bearer "@ + api.api_key,
        filter: match api.mf {
            Some(mf) => compiled(mf),
            None => Seq::empty(),
        },
    }
}

/// The plan of a fetch. Only materials are cached: they are read from the
/// cache where the cache is in use and has a directory, and written to it
/// where it has a directory, in use or not.
pub open spec fn plan_of(api: Ec3apiView) -> FetchPlanView {
    FetchPlanView {
        request: request_of(api),
        endpoint: api.endpoint,
        read_from: if api.endpoint == Endpoint::Materials && api.use_cache && api.cache_dir
            is Some {
            Some(cache_file_name_of(cache_key_of(api)))
        } else {
            None
        },
        write_to: if api.endpoint == Endpoint::Materials && api.cache_dir is Some {
            Some(cache_file_name_of(cache_key_of(api)))
        } else {
            None
        },
    }
}

impl Ec3api {
    /// A query for the materials of Germany with the given key, without a
    /// filter, with the cache in use but no directory for it.
    pub fn new(api_key: &str) -> (r: Ec3api)
        ensures
            r@ == (Ec3apiView {
                api_key: api_key@,
                endpoint: Endpoint::Materials,
                country: Country::Germany,
                mf: None,
                use_cache: true,
                cache_dir: None,
            }),
    {
        Ec3api {
            api_key: api_key.to_owned(),
            endpoint: Endpoint::Materials,
            country: Country::Germany,
            mf: None,
            cache_dir: None,
            use_cache: true,
        }
    }

    /// Sets the jurisdiction.
    pub fn country(&mut self, country_code: Country) -> (r: &mut Self)
        ensures
            r@ == (Ec3apiView { country: country_code, ..old(self)@ }),
            *final(self) == *final(r),
    {
        self.country = country_code;
        self
    }

    /// Sets the filter.
    pub fn material_filter(&mut self, mf: MaterialFilter) -> (r: &mut Self)
        ensures
            r@ == (Ec3apiView { mf: Some(mf@), ..old(self)@ }),
            *final(self) == *final(r),
    {
        self.mf = Some(mf);
        self
    }

    /// Sets what the query asks for.
    pub fn endpoint(&mut self, endpoint: Endpoint) -> (r: &mut Self)
        ensures
            r@ == (Ec3apiView { endpoint, ..old(self)@ }),
            *final(self) == *final(r),
    {
        self.endpoint = endpoint;
        self
    }

    /// Says whether cached materials may stand in for a query.
    pub fn use_cache(&mut self, opt: bool) -> (r: &mut Self)
        ensures
            r@ == (Ec3apiView { use_cache: opt, ..old(self)@ }),
            *final(self) == *final(r),
    {
        self.use_cache = opt;
        self
    }

    /// Sets the directory of the cache, and puts the cache in use.
    pub fn cache_dir(&mut self, path: PathBuf) -> (r: &mut Self)
        ensures
            r@ == (Ec3apiView { cache_dir: Some(path), use_cache: true, ..old(self)@ }),
            *final(self) == *final(r),
    {
        self.cache_dir = Some(path);
        self.use_cache = true;
        self
    }

    /// The directory of the cache, if one was set.
    pub fn cache_path(&self) -> (r: Option<&PathBuf>)
        ensures
            match r {
                Some(path) => self@.cache_dir == Some(*path),
                None => self@.cache_dir is None,
            },
    {
        self.cache_dir.as_ref()
    }

    /// The address of the query.
    pub fn prepare_url(&self) -> (r: String)
        ensures
            r@ == url_of(self@.endpoint, self@.country),
    {
        let mut url = "https://buildingtransparency.org/api/".to_owned();
        url.append(self.endpoint.path());
        match self.country {
            Country::Unspecified => {
                assert(url@ + Seq::<char>::empty() =~= url@);
            },
            _ => {
                let mut jurisdiction = "?jurisdiction=".to_owned();
                jurisdiction.append(self.country.code());
                url.append(jurisdiction.as_str());
            },
        }
        url
    }

    /// The key under which the materials of the query are cached.
    pub fn cache_key(&self) -> (r: String)
        ensures
            r@ == cache_key_of(self@),
    {
        match &self.mf {
            Some(mf) => mf.get_category(),
            None => "cache".to_owned(),
        }
    }

    /// The plan of a fetch with this configuration: the request to send,
    /// and the cache files to read and to write, if any.
    pub fn plan(&self) -> (r: FetchPlan)
        ensures
            r@ == plan_of(self@),
    {
        let mut authorization = "Bearer ".to_owned();
        authorization.append(self.api_key.as_str());
        let filter = match &self.mf {
            Some(mf) => convert(mf),
            None => String::new(),
        };
        let cached = match self.endpoint {
            Endpoint::Materials => self.cache_dir.is_some(),
            Endpoint::Categories => false,
        };
        let read_from = if cached && self.use_cache {
            Some(cache_file_name(self.cache_key().as_str()))
        } else {
            None
        };
        let write_to = if cached {
            Some(cache_file_name(self.cache_key().as_str()))
        } else {
            None
        };
        FetchPlan {
            request: Request { url: self.prepare_url(), authorization, filter },
            endpoint: self.endpoint,
            read_from,
            write_to,
        }
    }
}

} // verus!
