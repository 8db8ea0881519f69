//! The configuration file once the identity of the host is settled.

use crate::config::get_server_info::{get_hostname, get_machine_id, is_machine_id, trimmed};
use crate::config::parse_config::{Server, ServerConfig};
use crate::views::option_view;
use vstd::prelude::*;

verus! {

/// The value given on the command line, else the value of the file.
pub open spec fn merged<T>(cli: Option<T>, file: Option<T>) -> Option<T> {
    match cli {
        Some(v) => Some(v),
        None => file,
    }
}

/// The name of a host with this configured name and this content of the name file.
pub open spec fn hostname_of(hostname: Option<String>, etc_hostname: Option<String>) -> Option<
    Seq<char>,
> {
    match hostname {
        Some(name) => Some(name@),
        None => match etc_hostname {
            Some(text) => Some(trimmed(text@)),
            None => None,
        },
    }
}

/// The value given on the command line, else the value of the file.
pub fn merge<T>(cli: Option<T>, file: Option<T>) -> (r: Option<T>)
    ensures
        r == merged(cli, file),
{
    match cli {
        Some(v) => Some(v),
        None => file,
    }
}

/// The configuration to go on with and to write back to the file, from what was read
/// of the file (nothing where the file is missing or cannot be read).
///
/// There is one only where the file has a section of the server. In it the identity
/// of the host is settled: the name is the one of the command line, else the one of
/// the file, else the one of the host's name file; the identifier is the one of the
/// command line, else the one of the file, else the one of the host's identifier file,
/// else a new one. Every other value is that of the file.
pub fn get_parameters_from_config_file<C>(
    config_toml: Option<ServerConfig<C>>,
    cli_server_id: Option<String>,
    cli_hostname: Option<String>,
    etc_hostname: Option<String>,
    etc_machine_id: Option<String>,
) -> (r: Option<ServerConfig<C>>)
    ensures
        r is Some <==> (config_toml matches Some(read) && read.server is Some),
        r matches Some(settled) ==> {
            let read = config_toml->Some_0;
            let section = read.server->Some_0;
            &&& settled.clickhouse == read.clickhouse
            &&& settled.server matches Some(server) && {
                &&& server.server_id matches Some(id) && is_machine_id(
                    id@,
                    merged(cli_server_id, section.server_id),
                    etc_machine_id,
                )
                &&& option_view(server.hostname) == hostname_of(
                    merged(cli_hostname, section.hostname),
                    etc_hostname,
                )
                &&& server.interface_filter == section.interface_filter
                &&& server.label == section.label
                &&& server.lat == section.lat
                &&& server.lng == section.lng
                &&& server.city == section.city
                &&& server.country == section.country
                &&& server.priority == section.priority
                &&& server.center == section.center
                &&& server.logs_path == section.logs_path
            }
        },
{
    let read = match config_toml {
        Some(read) => read,
        None => {
            return None;
        },
    };
    match read.server {
        Some(section) => {
            let hostname = get_hostname(merge(cli_hostname, section.hostname), etc_hostname);
            let machine_id = get_machine_id(merge(cli_server_id, section.server_id), etc_machine_id);
            Some(
                ServerConfig {
                    clickhouse: read.clickhouse,
                    server: Some(
                        Server {
                            server_id: Some(machine_id),
                            interface_filter: section.interface_filter,
                            hostname,
                            label: section.label,
                            lat: section.lat,
                            lng: section.lng,
                            city: section.city,
                            country: section.country,
                            priority: section.priority,
                            center: section.center,
                            logs_path: section.logs_path,
                        },
                    ),
                },
            )
        },
        None => None,
    }
}

} // verus!
