//! The root-filesystem configuration builder.
//!
//! The privileged mount reads a record of seven machine words: its own
//! length, five pointers to NUL-terminated paths and one pointer to an
//! array of pointers to NUL-terminated environment assignments, the array
//! ending in a null pointer. [`LayeredRootfsConfig`] holds the same content
//! as owned values; the driver lays it out as pointers at the moment of the
//! call and nowhere else.

use crate::cstr::{nul_free, CStrBuf};
use crate::error::BootError;
use vstd::layout::{layout_of_primitives, size_of};
use vstd::prelude::*;
use vstd::utf8::encode_utf8;

verus! {

/// Number of machine words in the record that the privileged mount reads.
pub const RECORD_WORDS: usize = 7;

/// Size in bytes of the record that the privileged mount reads.
pub open spec fn record_size() -> nat {
    RECORD_WORDS as nat * size_of::<usize>()
}

/// The layered root filesystem as the startup configuration names it.
pub struct RootfsLayout {
    /// The writable layer.
    pub upper_layer: String,
    /// The read-only layer.
    pub lower_layer: String,
    /// Where the merged filesystem is mounted.
    pub entry_point: String,
    /// The host directory that is passed through.
    pub hostfs_source: String,
    /// Where the host directory appears; `None` leaves the default to the
    /// privileged operation.
    pub hostfs_target: Option<String>,
    /// Environment assignments handed on into the new root.
    pub env: Vec<String>,
}

/// What a [`RootfsLayout`] holds, each text as its UTF-8 bytes.
pub struct RootfsLayoutView {
    pub upper_layer: Seq<u8>,
    pub lower_layer: Seq<u8>,
    pub entry_point: Seq<u8>,
    pub hostfs_source: Seq<u8>,
    pub hostfs_target: Option<Seq<u8>>,
    pub env: Seq<Seq<u8>>,
}

/// The UTF-8 bytes of each assignment.
pub open spec fn env_bytes(env: Seq<String>) -> Seq<Seq<u8>> {
    env.map_values(|assignment: String| encode_utf8(assignment@))
}

impl View for RootfsLayout {
    type V = RootfsLayoutView;

    open spec fn view(&self) -> RootfsLayoutView {
        RootfsLayoutView {
            upper_layer: encode_utf8(self.upper_layer@),
            lower_layer: encode_utf8(self.lower_layer@),
            entry_point: encode_utf8(self.entry_point@),
            hostfs_source: encode_utf8(self.hostfs_source@),
            hostfs_target: match self.hostfs_target {
                Some(target) => Some(encode_utf8(target@)),
                None => None,
            },
            env: env_bytes(self.env@),
        }
    }
}

/// What a [`LayeredRootfsConfig`] holds, each string without its terminator.
pub struct RootfsConfigView {
    pub len: nat,
    pub upper_layer_path: Seq<u8>,
    pub lower_layer_path: Seq<u8>,
    pub entry_point: Seq<u8>,
    pub hostfs_source: Seq<u8>,
    pub hostfs_target: Option<Seq<u8>>,
    pub envp: Seq<Option<Seq<u8>>>,
}

/// The configuration of a layered mount, ready for the privileged call.
pub struct LayeredRootfsConfig {
    len: usize,
    upper_layer_path: CStrBuf,
    lower_layer_path: CStrBuf,
    entry_point: CStrBuf,
    hostfs_source: CStrBuf,
    hostfs_target: Option<CStrBuf>,
    envp: Vec<Option<CStrBuf>>,
}

/// The text of an optional string; nothing stands for a null pointer.
pub open spec fn entry_view(entry: Option<CStrBuf>) -> Option<Seq<u8>> {
    match entry {
        Some(text) => Some(text@),
        None => None,
    }
}

/// The texts of an environment vector.
pub open spec fn envp_view(envp: Seq<Option<CStrBuf>>) -> Seq<Option<Seq<u8>>> {
    envp.map_values(|entry: Option<CStrBuf>| entry_view(entry))
}

/// The vector ends in its only null entry.
pub open spec fn sentinel_terminated(envp: Seq<Option<Seq<u8>>>) -> bool {
    &&& envp.len() >= 1
    &&& envp.last() is None
    &&& forall|i: int| 0 <= i < envp.len() - 1 ==> #[trigger] envp[i] is Some
}

/// None of the paths of the layout holds a NUL byte.
pub open spec fn paths_nul_free(layout: RootfsLayoutView) -> bool {
    &&& nul_free(layout.upper_layer)
    &&& nul_free(layout.lower_layer)
    &&& nul_free(layout.entry_point)
    &&& nul_free(layout.hostfs_source)
    &&& layout.hostfs_target matches Some(target) ==> nul_free(target)
}

/// None of the environment assignments holds a NUL byte.
pub open spec fn env_nul_free(env: Seq<Seq<u8>>) -> bool {
    forall|i: int| 0 <= i < env.len() ==> nul_free(#[trigger] env[i])
}

/// The environment vector for the assignments: each of them in order, then
/// the null entry that ends the vector.
pub open spec fn envp_spec(env: Seq<Seq<u8>>) -> Seq<Option<Seq<u8>>> {
    env.map_values(|assignment: Seq<u8>| Some(assignment)).push(None)
}

/// What the builder makes of a layout: the record, or the reason why there
/// is none. A NUL byte in a path is reported before one in the environment.
pub open spec fn config_spec(layout: RootfsLayoutView) -> Result<RootfsConfigView, BootError> {
    if !paths_nul_free(layout) {
        Err(BootError::InvalidPath)
    } else if !env_nul_free(layout.env) {
        Err(BootError::InvalidEnv)
    } else {
        Ok(
            RootfsConfigView {
                len: record_size(),
                upper_layer_path: layout.upper_layer,
                lower_layer_path: layout.lower_layer,
                entry_point: layout.entry_point,
                hostfs_source: layout.hostfs_source,
                hostfs_target: layout.hostfs_target,
                envp: envp_spec(layout.env),
            },
        )
    }
}

impl View for LayeredRootfsConfig {
    type V = RootfsConfigView;

    closed spec fn view(&self) -> RootfsConfigView {
        RootfsConfigView {
            len: self.len as nat,
            upper_layer_path: self.upper_layer_path@,
            lower_layer_path: self.lower_layer_path@,
            entry_point: self.entry_point@,
            hostfs_source: self.hostfs_source@,
            hostfs_target: entry_view(self.hostfs_target),
            envp: envp_view(self.envp@),
        }
    }
}

/// The size of the record on this machine.
fn measured_record_size() -> (size: usize)
    ensures
        size == record_size(),
{
    broadcast use layout_of_primitives;

    RECORD_WORDS * core::mem::size_of::<usize>()
}

/// Terminates each assignment and closes the vector with the null entry.
fn terminate_env(env: &Vec<String>) -> (r: Option<Vec<Option<CStrBuf>>>)
    ensures
        r is Some <==> env_nul_free(env_bytes(env@)),
        r matches Some(envp) ==> envp_view(envp@) == envp_spec(env_bytes(env@)),
{
    let mut envp: Vec<Option<CStrBuf>> = Vec::new();
    let mut i: usize = 0;
    while i < env.len()
        invariant
            0 <= i <= env@.len(),
            envp@.len() == i,
            forall|j: int| 0 <= j < i ==> nul_free(#[trigger] env_bytes(env@)[j]),
            forall|j: int|
                0 <= j < i ==> entry_view(#[trigger] envp@[j]) == Some(env_bytes(env@)[j]),
        decreases env@.len() - i,
    {
        match CStrBuf::new(env[i].as_str()) {
            Some(text) => {
                envp.push(Some(text));
            },
            None => {
                assert(!nul_free(env_bytes(env@)[i as int]));
                return None;
            },
        }
        i = i + 1;
    }
    envp.push(None);
    Some(envp)
}

impl LayeredRootfsConfig {
    #[verifier::type_invariant]
    spec fn well_formed(&self) -> bool {
        &&& self.len == record_size()
        &&& sentinel_terminated(envp_view(self.envp@))
    }

    /// Builds the record for a layout.
    ///
    /// It succeeds exactly when no path and no environment assignment holds
    /// a NUL byte. Then the record's length field is the size of the record,
    /// each string is the layout's, and the environment vector ends in its
    /// null entry, also where the layout names no assignment at all.
    pub fn build(layout: &RootfsLayout) -> (r: Result<LayeredRootfsConfig, BootError>)
        ensures
            match r {
                Ok(config) => config_spec(layout@) == Ok::<RootfsConfigView, BootError>(config@),
                Err(e) => config_spec(layout@) == Err::<RootfsConfigView, BootError>(e),
            },
            paths_nul_free(layout@) && env_nul_free(layout@.env) ==> r is Ok && r.unwrap()@.len
                == record_size(),
            !paths_nul_free(layout@) ==> r == Err::<LayeredRootfsConfig, BootError>(
                BootError::InvalidPath,
            ),
            r matches Ok(config) ==> sentinel_terminated(config@.envp),
    {
        let upper_layer_path = match CStrBuf::new(layout.upper_layer.as_str()) {
            Some(path) => path,
            None => {
                return Err(BootError::InvalidPath);
            },
        };
        let lower_layer_path = match CStrBuf::new(layout.lower_layer.as_str()) {
            Some(path) => path,
            None => {
                return Err(BootError::InvalidPath);
            },
        };
        let entry_point = match CStrBuf::new(layout.entry_point.as_str()) {
            Some(path) => path,
            None => {
                return Err(BootError::InvalidPath);
            },
        };
        let hostfs_source = match CStrBuf::new(layout.hostfs_source.as_str()) {
            Some(path) => path,
            None => {
                return Err(BootError::InvalidPath);
            },
        };
        let hostfs_target = match &layout.hostfs_target {
            Some(target) => match CStrBuf::new(target.as_str()) {
                Some(path) => Some(path),
                None => {
                    return Err(BootError::InvalidPath);
                },
            },
            None => None,
        };
        let envp = match terminate_env(&layout.env) {
            Some(envp) => envp,
            None => {
                return Err(BootError::InvalidEnv);
            },
        };
        Ok(
            LayeredRootfsConfig {
                len: measured_record_size(),
                upper_layer_path,
                lower_layer_path,
                entry_point,
                hostfs_source,
                hostfs_target,
                envp,
            },
        )
    }

    /// The record's length field: the size of the record.
    pub fn len(&self) -> (len: usize)
        ensures
            len == self@.len,
            len == record_size(),
    {
        proof {
            use_type_invariant(self);
        }
        self.len
    }

    /// The writable layer.
    pub fn upper_layer_path(&self) -> (path: &CStrBuf)
        ensures
            path@ == self@.upper_layer_path,
    {
        &self.upper_layer_path
    }

    /// The read-only layer.
    pub fn lower_layer_path(&self) -> (path: &CStrBuf)
        ensures
            path@ == self@.lower_layer_path,
    {
        &self.lower_layer_path
    }

    /// Where the merged filesystem is mounted.
    pub fn entry_point(&self) -> (path: &CStrBuf)
        ensures
            path@ == self@.entry_point,
    {
        &self.entry_point
    }

    /// The host directory that is passed through.
    pub fn hostfs_source(&self) -> (path: &CStrBuf)
        ensures
            path@ == self@.hostfs_source,
    {
        &self.hostfs_source
    }

    /// Where the host directory appears, if the layout says so.
    pub fn hostfs_target(&self) -> (path: &Option<CStrBuf>)
        ensures
            entry_view(*path) == self@.hostfs_target,
    {
        &self.hostfs_target
    }

    /// The environment vector: every assignment, then the null entry.
    pub fn envp(&self) -> (envp: &Vec<Option<CStrBuf>>)
        ensures
            envp_view(envp@) == self@.envp,
            sentinel_terminated(self@.envp),
    {
        proof {
            use_type_invariant(self);
        }
        &self.envp
    }
}

} // verus!
