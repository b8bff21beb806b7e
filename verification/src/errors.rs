//! What can go wrong in a command, and the message that the caller is shown.

use vstd::prelude::*;
use vstd::string::*;

verus! {

/// Why a command failed. The variants that wrap a text hold what the
/// operating system said.
#[derive(Debug, Clone, PartialEq)]
pub enum CommandError {
    /// The directory could not be opened or listed.
    ReadDirectory(String),
    /// One entry of the directory could not be read.
    ReadEntry(String),
    /// A file's content does not read as an image; holds the file's path
    /// where that is text.
    NotAnImage(Option<String>),
    /// A file's name is not text.
    MissingFileName,
    /// A file's path is not text.
    MissingFilePath,
    /// A directory's name is not text.
    MissingDirectoryName,
    /// A directory's path is not text.
    MissingDirectoryPath,
    /// The mounted volumes could not be listed.
    ListMounts(String),
    /// A file could not be renamed.
    Rename(String),
}

/// What a `CommandError` holds, as mathematical text.
pub enum CommandErrorText {
    ReadDirectory(Seq<char>),
    ReadEntry(Seq<char>),
    NotAnImage(Option<Seq<char>>),
    MissingFileName,
    MissingFilePath,
    MissingDirectoryName,
    MissingDirectoryPath,
    ListMounts(Seq<char>),
    Rename(Seq<char>),
}

impl CommandErrorText {
    /// The message of the error: a fixed sentence, with the wrapped text
    /// after it where there is one.
    pub open spec fn message(self) -> Seq<char> {
        match self {
            CommandErrorText::ReadDirectory(cause) => "无法读取指定文件夹，"@ + cause,
            CommandErrorText::ReadEntry(cause) => "无法获取指定文件夹信息，"@ + cause,
            CommandErrorText::NotAnImage(Some(path)) => "读取图片文件 "@ + path + " 元信息失败。"@,
            CommandErrorText::NotAnImage(None) => "读取图片文件元信息失败。"@,
            CommandErrorText::MissingFileName => "不能获取到文件名。"@,
            CommandErrorText::MissingFilePath => "不能获取到文件路径。"@,
            CommandErrorText::MissingDirectoryName => "不能获取到文件夹的名称。"@,
            CommandErrorText::MissingDirectoryPath => "不能获取到文件夹路径。"@,
            CommandErrorText::ListMounts(cause) => "不能列出系统中已挂载的磁盘："@ + cause,
            CommandErrorText::Rename(cause) => "重命名问文件失败，"@ + cause,
        }
    }
}

impl View for CommandError {
    type V = CommandErrorText;

    open spec fn view(&self) -> CommandErrorText {
        match self {
            CommandError::ReadDirectory(cause) => CommandErrorText::ReadDirectory(cause@),
            CommandError::ReadEntry(cause) => CommandErrorText::ReadEntry(cause@),
            CommandError::NotAnImage(Some(path)) => CommandErrorText::NotAnImage(Some(path@)),
            CommandError::NotAnImage(None) => CommandErrorText::NotAnImage(None),
            CommandError::MissingFileName => CommandErrorText::MissingFileName,
            CommandError::MissingFilePath => CommandErrorText::MissingFilePath,
            CommandError::MissingDirectoryName => CommandErrorText::MissingDirectoryName,
            CommandError::MissingDirectoryPath => CommandErrorText::MissingDirectoryPath,
            CommandError::ListMounts(cause) => CommandErrorText::ListMounts(cause@),
            CommandError::Rename(cause) => CommandErrorText::Rename(cause@),
        }
    }
}

/// A fixed sentence with a text after it.
fn sentence_with(sentence: &str, cause: &str) -> (text: String)
    ensures
        text@ == sentence@ + cause@,
{
    let mut text = String::from_str(sentence);
    text.append(cause);
    text
}

impl CommandError {
    /// The message that the caller is shown.
    pub fn message(&self) -> (text: String)
        ensures
            text@ == self@.message(),
    {
        match self {
            CommandError::ReadDirectory(cause) => sentence_with("无法读取指定文件夹，", cause.as_str()),
            CommandError::ReadEntry(cause) => sentence_with("无法获取指定文件夹信息，", cause.as_str()),
            CommandError::NotAnImage(Some(path)) => {
                let mut text = sentence_with("读取图片文件 ", path.as_str());
                text.append(" 元信息失败。");
                text
            },
            CommandError::NotAnImage(None) => String::from_str("读取图片文件元信息失败。"),
            CommandError::MissingFileName => String::from_str("不能获取到文件名。"),
            CommandError::MissingFilePath => String::from_str("不能获取到文件路径。"),
            CommandError::MissingDirectoryName => String::from_str("不能获取到文件夹的名称。"),
            CommandError::MissingDirectoryPath => String::from_str("不能获取到文件夹路径。"),
            CommandError::ListMounts(cause) => sentence_with("不能列出系统中已挂载的磁盘：", cause.as_str()),
            CommandError::Rename(cause) => sentence_with("重命名问文件失败，", cause.as_str()),
        }
    }
}

} // verus!
