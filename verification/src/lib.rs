//! Sans-I/O core of a tool that pushes one local directory tree to several
//! remote hosts over SFTP.
//!
//! Every decision the tool takes lives here as verified code on plain values:
//! how an address is normalised and split, which remote path a local file maps
//! to, how a directory walk proceeds, in which order a connection is set up and
//! a file is sent, and how failures are folded into per-host outcomes. The
//! caller performs the network and file-system work each step asks for and
//! hands the result back.
//!
//! One thing is taken from `russh_sftp` on trust: the flag word that stands
//! for an open mode on the wire.

pub mod client;
pub mod file_transfer;
pub mod handshake;
pub mod job;
pub mod orchestrator;
pub mod remote;
pub mod remote_path;
pub mod resolve;
pub mod ssh;
pub mod text;
pub mod transfer;
pub mod walk;
