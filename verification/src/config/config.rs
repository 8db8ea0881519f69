//! The resolved configuration of the server: the command line over the file.

use crate::config::config_file::{merge, merged};
use crate::config::get_server_info::{get_machine_id, is_machine_id};
use crate::config::parse_config;
use crate::config::parse_config::ServerConfig;
use crate::db::schema::Server;
use vstd::prelude::*;

verus! {

/// A value without which the server cannot be registered.
#[derive(Clone, Copy, Debug, PartialEq, Eq, Structural)]
pub enum MissingParameter {
    Hostname,
    Label,
    Lat,
    Lng,
}

impl MissingParameter {
    /// The message that names the missing value.
    pub fn message(&self) -> (r: &'static str)
        ensures
            r@ == match self {
                MissingParameter::Hostname => "Missing parameter: hostname"@,
                MissingParameter::Label => "Missing parameter: label"@,
                MissingParameter::Lat => "Missing parameter: lat"@,
                MissingParameter::Lng => "Missing parameter: lng"@,
            },
    {
        match self {
            MissingParameter::Hostname => "Missing parameter: hostname",
            MissingParameter::Label => "Missing parameter: label",
            MissingParameter::Lat => "Missing parameter: lat",
            MissingParameter::Lng => "Missing parameter: lng",
        }
    }
}

/// The resolved record of the server.
#[derive(Debug)]
pub struct ServerConfiguration<C> {
    pub config: Server<C>,
}

/// The section of the server in what was settled of the file, if there is one.
pub open spec fn file_section<C>(config_file_params: Option<ServerConfig<C>>) -> Option<
    parse_config::Server<C>,
> {
    match config_file_params {
        Some(params) => params.server,
        None => None,
    }
}

/// A value of the section of the server, none where the file has no such section.
pub open spec fn file_value<C, T>(
    file: Option<parse_config::Server<C>>,
    value: spec_fn(parse_config::Server<C>) -> Option<T>,
) -> Option<T> {
    match file {
        Some(section) => value(section),
        None => None,
    }
}

/// The first of the required values (name, label, latitude, longitude, in this order)
/// that neither the command line nor the file gives.
pub open spec fn first_missing<C>(
    cli: parse_config::Server<C>,
    file: Option<parse_config::Server<C>>,
) -> Option<MissingParameter> {
    if merged(cli.hostname, file_value(file, |f: parse_config::Server<C>| f.hostname)) is None {
        Some(MissingParameter::Hostname)
    } else if merged(cli.label, file_value(file, |f: parse_config::Server<C>| f.label)) is None {
        Some(MissingParameter::Label)
    } else if merged(cli.lat, file_value(file, |f: parse_config::Server<C>| f.lat)) is None {
        Some(MissingParameter::Lat)
    } else if merged(cli.lng, file_value(file, |f: parse_config::Server<C>| f.lng)) is None {
        Some(MissingParameter::Lng)
    } else {
        None
    }
}

/// `server` is the record that the command line and the section of the server in the
/// file resolve to.
///
/// Each value is that of the command line, else that of the file. The rules of the
/// command line stand where it gives at least one, else those of the file. The
/// identifier is that of the command line; without one it is an identifier of the host
/// as the file's identifier and the host's identifier file give it.
pub open spec fn resolves_to<C>(
    server: Server<C>,
    cli: parse_config::Server<C>,
    file: Option<parse_config::Server<C>>,
    etc_machine_id: Option<String>,
) -> bool {
    &&& match cli.server_id {
        Some(id) => server.server_id == id,
        None => is_machine_id(
            server.server_id@,
            file_value(file, |f: parse_config::Server<C>| f.server_id),
            etc_machine_id,
        ),
    }
    &&& Some(server.hostname) == merged(
        cli.hostname,
        file_value(file, |f: parse_config::Server<C>| f.hostname),
    )
    &&& Some(server.label) == merged(
        cli.label,
        file_value(file, |f: parse_config::Server<C>| f.label),
    )
    &&& Some(server.lat) == merged(cli.lat, file_value(file, |f: parse_config::Server<C>| f.lat))
    &&& Some(server.lng) == merged(cli.lng, file_value(file, |f: parse_config::Server<C>| f.lng))
    &&& server.interface_filter@ == if cli.interface_filter@.len() > 0 {
        cli.interface_filter@
    } else {
        match file {
            Some(section) => section.interface_filter@,
            None => Seq::empty(),
        }
    }
    &&& server.city == merged(cli.city, file_value(file, |f: parse_config::Server<C>| f.city))
    &&& server.country == merged(
        cli.country,
        file_value(file, |f: parse_config::Server<C>| f.country),
    )
    &&& server.priority == merged(
        cli.priority,
        file_value(file, |f: parse_config::Server<C>| f.priority),
    )
    &&& server.center == merged(
        cli.center,
        file_value(file, |f: parse_config::Server<C>| f.center),
    )
}

fn section_or_empty<C>(file: Option<parse_config::Server<C>>) -> (r: parse_config::Server<C>)
    ensures
        r.server_id == file_value(file, |f: parse_config::Server<C>| f.server_id),
        r.hostname == file_value(file, |f: parse_config::Server<C>| f.hostname),
        r.label == file_value(file, |f: parse_config::Server<C>| f.label),
        r.lat == file_value(file, |f: parse_config::Server<C>| f.lat),
        r.lng == file_value(file, |f: parse_config::Server<C>| f.lng),
        r.city == file_value(file, |f: parse_config::Server<C>| f.city),
        r.country == file_value(file, |f: parse_config::Server<C>| f.country),
        r.priority == file_value(file, |f: parse_config::Server<C>| f.priority),
        r.center == file_value(file, |f: parse_config::Server<C>| f.center),
        r.interface_filter@ == match file {
            Some(section) => section.interface_filter@,
            None => Seq::empty(),
        },
{
    match file {
        Some(section) => section,
        None => parse_config::Server {
            server_id: None,
            hostname: None,
            label: None,
            interface_filter: Vec::new(),
            lat: None,
            lng: None,
            city: None,
            country: None,
            priority: None,
            center: None,
            logs_path: None,
        },
    }
}

impl<C> ServerConfiguration<C> {
    /// The first of the required values (name, label, latitude, longitude, in this
    /// order) that neither the command line nor the file gives, if one is missing.
    /// Without all four the record of the server cannot be resolved.
    pub fn missing_parameter(
        config_file_params: &Option<ServerConfig<C>>,
        cli_params: &parse_config::Server<C>,
    ) -> (r: Option<MissingParameter>)
        ensures
            r == first_missing(*cli_params, file_section(*config_file_params)),
    {
        let section = match config_file_params {
            Some(params) => params.server.as_ref(),
            None => None,
        };
        let (hostname, label, lat, lng) = match section {
            Some(file) => (
                file.hostname.is_some(),
                file.label.is_some(),
                file.lat.is_some(),
                file.lng.is_some(),
            ),
            None => (false, false, false, false),
        };
        if cli_params.hostname.is_none() && !hostname {
            Some(MissingParameter::Hostname)
        } else if cli_params.label.is_none() && !label {
            Some(MissingParameter::Label)
        } else if cli_params.lat.is_none() && !lat {
            Some(MissingParameter::Lat)
        } else if cli_params.lng.is_none() && !lng {
            Some(MissingParameter::Lng)
        } else {
            None
        }
    }

    /// The record of the server, from what was settled of the file and what the
    /// command line gives.
    ///
    /// A value of the command line stands before that of the file. The name, the
    /// label, the latitude and the longitude are required: one of the two must give
    /// each, which [`ServerConfiguration::missing_parameter`] tells beforehand. A file
    /// without a section of the server gives no value.
    pub fn new(
        config_file_params: Option<ServerConfig<C>>,
        cli_params: parse_config::Server<C>,
        etc_machine_id: Option<String>,
    ) -> (r: Self)
        requires
            first_missing(cli_params, file_section(config_file_params)) is None,
        ensures
            resolves_to(r.config, cli_params, file_section(config_file_params), etc_machine_id),
    {
        let section = match config_file_params {
            Some(params) => params.server,
            None => None,
        };
        let file = section_or_empty(section);
        let hostname = merge(cli_params.hostname, file.hostname).unwrap();
        let label = merge(cli_params.label, file.label).unwrap();
        let lat = merge(cli_params.lat, file.lat).unwrap();
        let lng = merge(cli_params.lng, file.lng).unwrap();
        let server_id = match cli_params.server_id {
            Some(id) => id,
            None => get_machine_id(file.server_id, etc_machine_id),
        };
        let interface_filter = if cli_params.interface_filter.len() > 0 {
            cli_params.interface_filter
        } else {
            file.interface_filter
        };
        let server = Server {
            server_id,
            hostname,
            label,
            interface_filter,
            country: merge(cli_params.country, file.country),
            city: merge(cli_params.city, file.city),
            lat,
            lng,
            priority: merge(cli_params.priority, file.priority),
            center: merge(cli_params.center, file.center),
        };
        ServerConfiguration { config: server }
    }

    /// The record of the server.
    pub fn get_config(&self) -> (r: &Server<C>)
        ensures
            *r == self.config,
    {
        &self.config
    }
}

} // verus!
