//! Loading voices from a directory of `<voice_id>.onnx.json` files: which
//! ids are acceptable, where their file is, and how the outcome of
//! reading it becomes a voice or an error. Reading the file is left to
//! the caller.

use vstd::prelude::*;
use crate::errors::VoiceLoadError;
use crate::model::{model_config_to_voice, voice_of_config, ModelConfig};
use crate::text::{chars_of, join2, owned};
use crate::voice::Voice;

verus! {

/// Whether `voice_id` is exactly one plain path component: not empty,
/// neither `.` nor `..`, and free of path separators, so that joining it
/// to the voice directory cannot leave that directory (an absolute id
/// would replace the directory, a `..` walk out of it).
pub open spec fn is_single_plain_component(voice_id: Seq<char>) -> bool {
    &&& voice_id.len() > 0
    &&& voice_id != seq!['.']
    &&& voice_id != seq!['.', '.']
    &&& forall|i: int| 0 <= i < voice_id.len() ==> #[trigger] voice_id[i] != '/'
}

/// Whether a voice id names exactly one plain file-name component, so
/// that it cannot reach outside the voice directory.
pub fn is_safe_voice_id(voice_id: &str) -> (r: bool)
    ensures
        r == is_single_plain_component(voice_id@),
{
    let chars = chars_of(voice_id);
    let n = chars.len();
    if n == 0 {
        return false;
    }
    if n == 1 && chars[0] == '.' {
        assert(voice_id@ =~= seq!['.']);
        return false;
    }
    if n == 2 && chars[0] == '.' && chars[1] == '.' {
        assert(voice_id@ =~= seq!['.', '.']);
        return false;
    }
    for k in 0..n
        invariant
            n == chars@.len(),
            chars@ == voice_id@,
            forall|i: int| 0 <= i < k ==> #[trigger] chars@[i] != '/',
    {
        if chars[k] == '/' {
            return false;
        }
    }
    assert(voice_id@ != seq!['.']) by {
        if n == 1 {
            assert(voice_id@[0] != '.');
        }
    }
    assert(voice_id@ != seq!['.', '.']) by {
        if n == 2 {
            assert(voice_id@[0] != '.' || voice_id@[1] != '.');
        }
    }
    true
}

/// A directory of voice configuration files.
pub struct FsVoiceRepository {
    base_dir: String,
}

/// The file name of a voice's configuration.
pub open spec fn config_file_name(voice_id: Seq<char>) -> Seq<char> {
    voice_id + ".onnx.json"@
}

/// `base` joined with the relative `name`, as `PathBuf::join` does: a
/// separator goes between them unless `base` is empty or ends with one.
pub open spec fn path_join(base: Seq<char>, name: Seq<char>) -> Seq<char> {
    if base.len() == 0 || base.last() == '/' {
        base + name
    } else {
        base + seq!['/'] + name
    }
}

impl FsVoiceRepository {
    /// The directory the configurations are read from.
    pub closed spec fn dir(&self) -> Seq<char> {
        self.base_dir@
    }

    /// A repository over `base_dir`.
    pub fn new(base_dir: String) -> (r: Self)
        ensures
            r.dir() == base_dir@,
    {
        FsVoiceRepository { base_dir }
    }

    /// The configuration file of `voice_id`, or `NotFound` naming it when
    /// the id is not a single plain component.
    pub fn config_path(&self, voice_id: &str) -> (r: Result<String, VoiceLoadError>)
        ensures
            is_single_plain_component(voice_id@) ==> (r matches Ok(p) && p@ == path_join(self.dir(), config_file_name(voice_id@))),
            !is_single_plain_component(voice_id@) ==> (r matches Err(VoiceLoadError::NotFound(id)) && id@ == voice_id@),
    {
        if !is_safe_voice_id(voice_id) {
            return Err(VoiceLoadError::NotFound(owned(voice_id)));
        }
        let name = join2(voice_id, ".onnx.json");
        let base = chars_of(self.base_dir.as_str());
        if base.len() == 0 || base[base.len() - 1] == '/' {
            Ok(join2(self.base_dir.as_str(), name.as_str()))
        } else {
            proof {
                reveal_strlit("/");
            }
            let mut p = join2(self.base_dir.as_str(), "/");
            p.append(name.as_str());
            Ok(p)
        }
    }
}

/// The voice or error of a load, from what reading the configuration
/// file gave: `None` when the file could not be opened (the voice is not
/// found), the parser's message when it is not a valid configuration.
pub fn load_outcome(voice_id: &str, read: Option<Result<ModelConfig, String>>) -> (r: Result<Voice, VoiceLoadError>)
    ensures
        read is None ==> (r matches Err(VoiceLoadError::NotFound(id)) && id@ == voice_id@),
        read matches Some(Err(msg)) ==> (r matches Err(VoiceLoadError::MalformedConfig(m)) && m@ == msg@),
        read matches Some(Ok(config)) ==> (r matches Ok(v) && voice_of_config(v, voice_id@, config)),
{
    match read {
        None => Err(VoiceLoadError::NotFound(owned(voice_id))),
        Some(Err(msg)) => Err(VoiceLoadError::MalformedConfig(msg)),
        Some(Ok(config)) => Ok(model_config_to_voice(voice_id, &config)),
    }
}

/// A safe id cannot leave the voice directory: its configuration file
/// name is one component (no separator, neither `.` nor `..`), joined
/// directly onto the directory.
pub proof fn lemma_safe_id_stays_in_dir(base: Seq<char>, voice_id: Seq<char>)
    requires
        is_single_plain_component(voice_id),
    ensures
        ({
            let name = config_file_name(voice_id);
            &&& forall|i: int| 0 <= i < name.len() ==> #[trigger] name[i] != '/'
            &&& name != seq!['.'] && name != seq!['.', '.']
            &&& path_join(base, name).skip(path_join(base, name).len() - name.len()) == name
            &&& path_join(base, name).take(path_join(base, name).len() - name.len()) == (if base.len() == 0 || base.last() == '/' { base } else { base.push('/') })
        }),
{
    let name = config_file_name(voice_id);
    let suffix = ".onnx.json"@;
    reveal_strlit(".onnx.json");
    assert forall|i: int| 0 <= i < name.len() implies #[trigger] name[i] != '/' by {
        if i < voice_id.len() {
            assert(name[i] == voice_id[i]);
        } else {
            assert(name[i] == suffix[i - voice_id.len()]);
        }
    }
    assert(name.len() > 2);
    let p = path_join(base, name);
    if base.len() == 0 || base.last() == '/' {
        assert(p.skip(p.len() - name.len()) =~= name);
        assert(p.take(p.len() - name.len()) =~= base);
    } else {
        assert(p.skip(p.len() - name.len()) =~= name);
        assert(p.take(p.len() - name.len()) =~= base.push('/'));
    }
}

} // verus!
