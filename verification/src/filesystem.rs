use vstd::prelude::*;

use crate::json::{JsonValue, SpecJson, push_member, str_eq};

verus! {

/// One file operation as the tool surface takes it.
#[derive(Debug)]
pub struct FileOperationRequest {
    pub operation: String,
    pub path: String,
    pub content: Option<String>,
    pub recursive: Option<bool>,
}

/// The outcome of a file operation.
#[derive(Debug)]
pub struct FileOperationResponse {
    pub success: bool,
    pub message: String,
    pub data: Option<JsonValue>,
}

/// One planned filesystem action for the caller to perform.
#[derive(Debug)]
pub enum FileAction {
    Read { path: String },
    Write { path: String, content: String },
    List { path: String, recursive: bool },
    Create { path: String },
    Delete { path: String },
}

/// What the caller found when it performed a delete.
#[derive(Debug)]
pub enum DeleteOutcome {
    FileRemoved,
    DirRemoved,
    FileFailed(String),
    DirFailed(String),
    Missing,
}

/// One directory entry as the caller read it.
#[derive(Debug)]
pub struct DirEntryInfo {
    pub name: String,
    pub path: String,
    pub is_file: bool,
    pub is_dir: bool,
}

/// The wire object a directory entry is listed as.
pub open spec fn spec_entry_obj(e: DirEntryInfo) -> SpecJson {
    SpecJson::Obj(
        seq![
            ("name"@, SpecJson::Str(e.name@)),
            ("path"@, SpecJson::Str(e.path@)),
            ("is_file"@, SpecJson::Bool(e.is_file)),
            ("is_directory"@, SpecJson::Bool(e.is_dir)),
        ],
    )
}

/// The views of a list of strings.
pub open spec fn str_views(s: Seq<String>) -> Seq<Seq<char>> {
    Seq::new(s.len(), |i: int| s[i]@)
}

/// The paths of the directories among the entries, in order.
pub open spec fn dir_paths(s: Seq<DirEntryInfo>) -> Seq<Seq<char>>
    decreases s.len(),
{
    if s.len() == 0 {
        Seq::empty()
    } else {
        dir_paths(s.subrange(0, s.len() - 1)) + (if s[s.len() - 1].is_dir {
            seq![s[s.len() - 1].path@]
        } else {
            Seq::empty()
        })
    }
}

/// The wire object `{"path": <path>}` that write-shaped responses carry.
pub open spec fn spec_path_obj(path: Seq<char>) -> SpecJson {
    SpecJson::Obj(seq![("path"@, SpecJson::Str(path))])
}

fn path_obj(path: &str) -> (r: JsonValue)
    ensures
        r@ == spec_path_obj(path@),
{
    let mut ms: Vec<(String, JsonValue)> = Vec::new();
    proof {
        assert(JsonValue::view_obj(ms@) =~= Seq::<(Seq<char>, SpecJson)>::empty());
    }
    push_member(&mut ms, "path".to_owned(), JsonValue::Str(path.to_owned()));
    proof {
        assert(JsonValue::view_obj(ms@) =~= seq![("path"@, SpecJson::Str(path@))]);
    }
    JsonValue::Obj(ms)
}

/// The filesystem tool: it turns tool requests into planned actions and wraps
/// what the caller performed into responses. The reads and writes themselves
/// are the caller's, at the process edge.
#[derive(Debug)]
pub struct FilesystemTool;

impl FilesystemTool {
    /// The action a request asks for, or the immediate failure response:
    /// writes need content, other operation names are refused.
    pub fn execute(&self, request: FileOperationRequest) -> (r: Result<
        FileAction,
        FileOperationResponse,
    >)
        ensures
            ({
                let op = request.operation@;
                if op == "read"@ {
                    r matches Ok(FileAction::Read { path }) && path == request.path
                } else if op == "write"@ {
                    match request.content {
                        Some(c) => r matches Ok(FileAction::Write { path, content }) && path
                            == request.path && content == c,
                        None => r matches Err(resp) && !resp.success && resp.message@
                            == "Content required for write operation"@ && resp.data is None,
                    }
                } else if op == "list"@ {
                    r matches Ok(FileAction::List { path, recursive }) && path == request.path
                        && recursive == (match request.recursive {
                        Some(b) => b,
                        None => false,
                    })
                } else if op == "create"@ {
                    r matches Ok(FileAction::Create { path }) && path == request.path
                } else if op == "delete"@ {
                    r matches Ok(FileAction::Delete { path }) && path == request.path
                } else {
                    r matches Err(resp) && !resp.success && resp.message@
                        == "Unsupported operation: "@ + op && resp.data is None
                }
            }),
    {
        if str_eq(request.operation.as_str(), "read") {
            Ok(FileAction::Read { path: request.path })
        } else if str_eq(request.operation.as_str(), "write") {
            match request.content {
                Some(c) => Ok(FileAction::Write { path: request.path, content: c }),
                None => Err(
                    FileOperationResponse {
                        success: false,
                        message: "Content required for write operation".to_owned(),
                        data: None,
                    },
                ),
            }
        } else if str_eq(request.operation.as_str(), "list") {
            let recursive = match request.recursive {
                Some(b) => b,
                None => false,
            };
            Ok(FileAction::List { path: request.path, recursive })
        } else if str_eq(request.operation.as_str(), "create") {
            Ok(FileAction::Create { path: request.path })
        } else if str_eq(request.operation.as_str(), "delete") {
            Ok(FileAction::Delete { path: request.path })
        } else {
            Err(
                FileOperationResponse {
                    success: false,
                    message: "Unsupported operation: ".to_owned().concat(
                        request.operation.as_str(),
                    ),
                    data: None,
                },
            )
        }
    }

    /// The response a performed read maps to.
    pub fn read_file_response(&self, path: &str, outcome: Result<String, String>) -> (r:
        FileOperationResponse)
        ensures
            match outcome {
                Ok(content) => r.success && r.message@ == "File read successfully"@ && (
                r.data matches Some(d) && d@ == SpecJson::Obj(
                    seq![
                        ("content"@, SpecJson::Str(content@)),
                        ("path"@, SpecJson::Str(path@)),
                    ],
                )),
                Err(e) => !r.success && r.message@ == "Failed to read file: "@ + e@ && r.data
                    is None,
            },
    {
        match outcome {
            Ok(content) => {
                let mut ms: Vec<(String, JsonValue)> = Vec::new();
                proof {
                    assert(JsonValue::view_obj(ms@) =~= Seq::<(Seq<char>, SpecJson)>::empty());
                }
                push_member(&mut ms, "content".to_owned(), JsonValue::Str(content));
                push_member(&mut ms, "path".to_owned(), JsonValue::Str(path.to_owned()));
                proof {
                    assert(JsonValue::view_obj(ms@) =~= seq![
                        ("content"@, SpecJson::Str(outcome->Ok_0@)),
                        ("path"@, SpecJson::Str(path@)),
                    ]);
                }
                FileOperationResponse {
                    success: true,
                    message: "File read successfully".to_owned(),
                    data: Some(JsonValue::Obj(ms)),
                }
            },
            Err(e) => FileOperationResponse {
                success: false,
                message: "Failed to read file: ".to_owned().concat(e.as_str()),
                data: None,
            },
        }
    }

    /// The response a performed write maps to.
    pub fn write_file_response(&self, path: &str, outcome: Result<(), String>) -> (r:
        FileOperationResponse)
        ensures
            match outcome {
                Ok(_) => r.success && r.message@ == "File written successfully"@ && (
                r.data matches Some(d) && d@ == spec_path_obj(path@)),
                Err(e) => !r.success && r.message@ == "Failed to write file: "@ + e@ && r.data
                    is None,
            },
    {
        match outcome {
            Ok(_) => FileOperationResponse {
                success: true,
                message: "File written successfully".to_owned(),
                data: Some(path_obj(path)),
            },
            Err(e) => FileOperationResponse {
                success: false,
                message: "Failed to write file: ".to_owned().concat(e.as_str()),
                data: None,
            },
        }
    }

    /// The response a performed create maps to.
    pub fn create_file_response(&self, path: &str, outcome: Result<(), String>) -> (r:
        FileOperationResponse)
        ensures
            match outcome {
                Ok(_) => r.success && r.message@ == "File created successfully"@ && (
                r.data matches Some(d) && d@ == spec_path_obj(path@)),
                Err(e) => !r.success && r.message@ == "Failed to create file: "@ + e@ && r.data
                    is None,
            },
    {
        match outcome {
            Ok(_) => FileOperationResponse {
                success: true,
                message: "File created successfully".to_owned(),
                data: Some(path_obj(path)),
            },
            Err(e) => FileOperationResponse {
                success: false,
                message: "Failed to create file: ".to_owned().concat(e.as_str()),
                data: None,
            },
        }
    }

    /// The response a performed delete maps to: files and directories answer
    /// differently, and a missing path is named.
    pub fn delete_file_response(&self, path: &str, outcome: DeleteOutcome) -> (r:
        FileOperationResponse)
        ensures
            match outcome {
                DeleteOutcome::FileRemoved => r.success && r.message@
                    == "File deleted successfully"@ && (r.data matches Some(d) && d@
                    == spec_path_obj(path@)),
                DeleteOutcome::DirRemoved => r.success && r.message@
                    == "Directory deleted successfully"@ && (r.data matches Some(d) && d@
                    == spec_path_obj(path@)),
                DeleteOutcome::FileFailed(e) => !r.success && r.message@
                    == "Failed to delete file: "@ + e@ && r.data is None,
                DeleteOutcome::DirFailed(e) => !r.success && r.message@
                    == "Failed to delete directory: "@ + e@ && r.data is None,
                DeleteOutcome::Missing => !r.success && r.message@ == "Path does not exist: "@
                    + path@ && r.data is None,
            },
    {
        match outcome {
            DeleteOutcome::FileRemoved => FileOperationResponse {
                success: true,
                message: "File deleted successfully".to_owned(),
                data: Some(path_obj(path)),
            },
            DeleteOutcome::DirRemoved => FileOperationResponse {
                success: true,
                message: "Directory deleted successfully".to_owned(),
                data: Some(path_obj(path)),
            },
            DeleteOutcome::FileFailed(e) => FileOperationResponse {
                success: false,
                message: "Failed to delete file: ".to_owned().concat(e.as_str()),
                data: None,
            },
            DeleteOutcome::DirFailed(e) => FileOperationResponse {
                success: false,
                message: "Failed to delete directory: ".to_owned().concat(e.as_str()),
                data: None,
            },
            DeleteOutcome::Missing => FileOperationResponse {
                success: false,
                message: "Path does not exist: ".to_owned().concat(path),
                data: None,
            },
        }
    }

    /// The wire objects a batch of directory entries is listed as, and the
    /// subdirectories a recursive walk visits next.
    pub fn entries_to_json(&self, entries: &Vec<DirEntryInfo>) -> (r: (
        Vec<JsonValue>,
        Vec<String>,
    ))
        ensures
            r.0@.len() == entries@.len(),
            forall|k: int|
                0 <= k < entries@.len() ==> (#[trigger] r.0@[k])@ == spec_entry_obj(
                    entries@[k],
                ),
            str_views(r.1@) == dir_paths(entries@),
    {
        let n = entries.len();
        let mut out: Vec<JsonValue> = Vec::new();
        let mut dirs: Vec<String> = Vec::new();
        let mut i: usize = 0;
        while i < n
            invariant
                i <= n,
                n == entries@.len(),
                out@.len() == i,
                forall|k: int|
                    0 <= k < i ==> (#[trigger] out@[k])@ == spec_entry_obj(entries@[k]),
                str_views(dirs@) == dir_paths(entries@.subrange(0, i as int)),
            decreases n - i,
        {
            let e = &entries[i];
            let mut ms: Vec<(String, JsonValue)> = Vec::new();
            proof {
                assert(JsonValue::view_obj(ms@) =~= Seq::<(Seq<char>, SpecJson)>::empty());
            }
            push_member(&mut ms, "name".to_owned(), JsonValue::Str(e.name.clone()));
            push_member(&mut ms, "path".to_owned(), JsonValue::Str(e.path.clone()));
            push_member(&mut ms, "is_file".to_owned(), JsonValue::Bool(e.is_file));
            push_member(&mut ms, "is_directory".to_owned(), JsonValue::Bool(e.is_dir));
            proof {
                assert(JsonValue::view_obj(ms@) =~= seq![
                    ("name"@, SpecJson::Str(entries@[i as int].name@)),
                    ("path"@, SpecJson::Str(entries@[i as int].path@)),
                    ("is_file"@, SpecJson::Bool(entries@[i as int].is_file)),
                    ("is_directory"@, SpecJson::Bool(entries@[i as int].is_dir)),
                ]);
            }
            let ghost pushed_view = SpecJson::Obj(JsonValue::view_obj(ms@));
            let ghost out_pre = out@;
            out.push(JsonValue::Obj(ms));
            proof {
                assert forall|k: int| 0 <= k < i + 1 implies (#[trigger] out@[k])@
                    == spec_entry_obj(entries@[k]) by {
                    if k < i {
                        assert(out@[k] == out_pre[k]);
                    } else {
                        assert(out@[k]@ == pushed_view);
                    }
                }
            }
            proof {
                let pre = entries@.subrange(0, i as int);
                let nxt = entries@.subrange(0, i as int + 1);
                assert(nxt.subrange(0, nxt.len() - 1) =~= pre);
                assert(nxt[nxt.len() - 1] == entries@[i as int]);
            }
            if e.is_dir {
                let ghost dirs_pre = dirs@;
                dirs.push(e.path.clone());
                proof {
                    assert(str_views(dirs@) =~= str_views(dirs_pre) + seq![
                        entries@[i as int].path@,
                    ]);
                }
            } else {
                proof {
                    assert(dir_paths(entries@.subrange(0, i as int + 1)) =~= str_views(dirs@));
                }
            }
            i += 1;
        }
        proof {
            assert(entries@.subrange(0, n as int) =~= entries@);
        }
        (out, dirs)
    }

    /// The response a performed listing maps to.
    pub fn list_directory_response(&self, entries: Vec<JsonValue>, recursive: bool) -> (r:
        FileOperationResponse)
        ensures
            r.success,
            r.message@ == (if recursive {
                "Directory listed recursively successfully"@
            } else {
                "Directory listed successfully"@
            }),
            r.data matches Some(d) && d@ == SpecJson::Arr(JsonValue::view_arr(entries@)),
    {
        let message = if recursive {
            "Directory listed recursively successfully".to_owned()
        } else {
            "Directory listed successfully".to_owned()
        };
        FileOperationResponse { success: true, message, data: Some(JsonValue::Arr(entries)) }
    }
}

} // verus!
