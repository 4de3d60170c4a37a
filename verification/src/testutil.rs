//! Sample data for offline use and for tests.

use vstd::prelude::*;
use crate::api::client::SynoClient;
use crate::app::{fixture_answer, parse_fixture};
use crate::config::ResolvedConfig;
use crate::error::Error;
use crate::event::task_by_id;
use crate::model::Task;
use crate::text::{decimal, same_text};

verus! {

/// A `SYNO.DownloadStation.Task` `list` response: the keys, the nesting and the value
/// types are those of a DSM 7 NAS, the titles and filenames are invented.
pub const FIXTURE_JSON: &'static str = r#"{"data":{"offset":0,"total":14,"tasks":[
  {"id": "dbid_001", "size": 6231819257, "status": "downloading", "title": "Ubuntu.24.04.3.LTS.Desktop.amd64", "type": "bt", "username": "eduard", "additional": {
    "detail": {"completed_time": 0, "connected_leechers": 4, "connected_peers": 16, "connected_seeders": 12, "create_time": "1753960800", "destination": "downloads", "seedelapsed": 0, "started_time": "1753960800", "total_peers": 16, "total_pieces": 0, "unzip_password": "", "uri": "", "waiting_seconds": 0},
    "file": [
      {"filename": "Ubuntu.24.04.3.LTS.Desktop.amd64/ubuntu-24.04.3-desktop-amd64.iso", "index": 0, "priority": "normal", "size": "6231818240", "size_downloaded": 2429549568, "wanted": true},
      {"filename": "Ubuntu.24.04.3.LTS.Desktop.amd64/SHA256SUMS", "index": 1, "priority": "normal", "size": "184", "size_downloaded": 184, "wanted": true},
      {"filename": "Ubuntu.24.04.3.LTS.Desktop.amd64/extras/wallpapers.zip", "index": 2, "priority": "low", "size": "833", "size_downloaded": 0, "wanted": false}
    ],
    "transfer": {"downloaded_pieces": 0, "size_downloaded": 2429550592, "size_uploaded": 118325248, "speed_download": 8912896, "speed_upload": 524288}
  }},
  {"id": "dbid_002", "size": 1932735283, "status": "seeding", "title": "Big.Buck.Bunny.2008.1080p.🐰.BluRay.x264", "type": "bt", "username": "eduard", "additional": {
    "detail": {"completed_time": 0, "connected_leechers": 9, "connected_peers": 14, "connected_seeders": 5, "create_time": "1750000000", "destination": "video/movies", "seedelapsed": 86400, "started_time": "1750000000", "total_peers": 14, "total_pieces": 0, "unzip_password": "", "uri": "", "waiting_seconds": 0},
    "file": [
      {"filename": "Big.Buck.Bunny.2008.1080p.BluRay.x264/big.buck.bunny.1080p.mkv", "index": 0, "priority": "normal", "size": 1932700000, "size_downloaded": 1932700000, "wanted": true},
      {"filename": "Big.Buck.Bunny.2008.1080p.BluRay.x264/big.buck.bunny.nfo", "index": 1, "priority": "normal", "size": 35283, "size_downloaded": 35283, "wanted": true}
    ],
    "transfer": {"downloaded_pieces": 0, "size_downloaded": 1932735283, "size_uploaded": 4137684173, "speed_download": 0, "speed_upload": 1258291}
  }},
  {"id": "dbid_003", "size": 1181116006, "status": "finished", "title": "archlinux-2026.07.01-x86_64.iso", "type": "bt", "username": "eduard", "additional": {
    "detail": {"completed_time": 0, "connected_leechers": 0, "connected_peers": 0, "connected_seeders": 0, "create_time": "1751328000", "destination": "downloads", "seedelapsed": 0, "started_time": "1751328000", "total_peers": 0, "total_pieces": 0, "unzip_password": "", "uri": "", "waiting_seconds": 0},
    "file": [
      {"filename": "archlinux-2026.07.01-x86_64.iso", "index": 0, "priority": "normal", "size": 1181116006, "size_downloaded": 1181116006, "wanted": true}
    ],
    "transfer": {"downloaded_pieces": 0, "size_downloaded": 1181116006, "size_uploaded": 590558003, "speed_download": 0, "speed_upload": 0}
  }},
  {"id": "dbid_004", "size": 3221225472, "status": "paused", "title": "LibreOffice.26.2.Source.Archive", "type": "bt", "username": "eduard", "additional": {
    "detail": {"completed_time": 0, "connected_leechers": 0, "connected_peers": 0, "connected_seeders": 0, "create_time": "1752000000", "destination": "software", "seedelapsed": 0, "started_time": "1752000000", "total_peers": 0, "total_pieces": 0, "unzip_password": "", "uri": "", "waiting_seconds": 0},
    "file": [
      {"filename": "LibreOffice.26.2.Source.Archive/source.tar.xz", "index": 0, "priority": "normal", "size": 3221225472, "size_downloaded": 966367641, "wanted": true}
    ],
    "transfer": {"downloaded_pieces": 0, "size_downloaded": 966367641, "size_uploaded": 0, "speed_download": 0, "speed_upload": 0}
  }},
  {"id": "dbid_005", "size": 734003200, "status": "error", "title": "Broken.Release.2019.720p", "type": "bt", "username": "eduard", "additional": {
    "detail": {"completed_time": 0, "connected_leechers": 0, "connected_peers": 0, "connected_seeders": 0, "create_time": "1749000000", "destination": "downloads", "seedelapsed": 0, "started_time": "1749000000", "total_peers": 0, "total_pieces": 0, "unzip_password": "", "uri": "", "waiting_seconds": 0},
    "file": [
      {"filename": "Broken.Release.2019.720p/broken.mkv", "index": 0, "priority": "normal", "size": 734003200, "size_downloaded": 0, "wanted": true}
    ],
    "transfer": {"downloaded_pieces": 0, "size_downloaded": 0, "size_uploaded": 0, "speed_download": 0, "speed_upload": 0}
  }},
  {"id": "dbid_006", "size": 8589934592, "status": "extracting", "title": "千と千尋の神隠し.2001.1080p.日本語音声", "type": "bt", "username": "eduard", "additional": {
    "detail": {"completed_time": 0, "connected_leechers": 0, "connected_peers": 3, "connected_seeders": 3, "create_time": "1748000000", "destination": "video/movies", "seedelapsed": 0, "started_time": "1748000000", "total_peers": 3, "total_pieces": 0, "unzip_password": "", "uri": "", "waiting_seconds": 0},
    "file": [
      {"filename": "千と千尋の神隠し.2001.1080p/movie.mkv", "index": 0, "priority": "normal", "size": 8589930496, "size_downloaded": 8589930496, "wanted": true},
      {"filename": "千と千尋の神隠し.2001.1080p/subs/ja.srt", "index": 1, "priority": "normal", "size": 4096, "size_downloaded": 4096, "wanted": true}
    ],
    "transfer": {"downloaded_pieces": 0, "size_downloaded": 8589934592, "size_uploaded": 429496729, "speed_download": 0, "speed_upload": 0}
  }},
  {"id": "dbid_007", "size": 4194304, "status": "waiting", "title": "syno-clean-0.1.0-x86_64-unknown-linux-gnu.tar.gz", "type": "http", "username": "eduard", "additional": {
    "detail": {"completed_time": 0, "connected_leechers": 0, "connected_peers": 0, "connected_seeders": 0, "create_time": "1754000000", "destination": "downloads", "seedelapsed": 0, "started_time": "1754000000", "total_peers": 0, "total_pieces": 0, "unzip_password": "", "uri": "", "waiting_seconds": 0},
    "transfer": {"downloaded_pieces": 0, "size_downloaded": 0, "size_uploaded": 0, "speed_download": 0, "speed_upload": 0}
  }},
  {"id": "dbid_008", "size": 12884901888, "status": "finishing", "title": "Sintel.2010.2160p.HDR", "type": "bt", "username": "eduard", "additional": {
    "detail": {"completed_time": 0, "connected_leechers": 2, "connected_peers": 8, "connected_seeders": 6, "create_time": "1753000000", "destination": "downloads/incoming", "seedelapsed": 0, "started_time": "1753000000", "total_peers": 8, "total_pieces": 0, "unzip_password": "", "uri": "", "waiting_seconds": 0},
    "file": [],
    "transfer": {"downloaded_pieces": 0, "size_downloaded": 12878610432, "size_uploaded": 1073741824, "speed_download": 1048576, "speed_upload": 262144}
  }},
  {"id": "dbid_009", "size": 21474836480, "status": "hash_checking", "title": "Some.Show.S01.1080p.WEB-DL", "type": "bt", "username": "eduard", "additional": {
    "detail": {"completed_time": 0, "connected_leechers": 0, "connected_peers": 0, "connected_seeders": 0, "create_time": "1747000000", "destination": "video/tv", "seedelapsed": 0, "started_time": "1747000000", "total_peers": 0, "total_pieces": 0, "unzip_password": "", "uri": "", "waiting_seconds": 0},
    "file": [
      {"filename": "Some.Show.S01.1080p.WEB-DL/e01.mkv", "index": 0, "priority": "normal", "size": 10737418240, "size_downloaded": 10737418240, "wanted": true},
      {"filename": "Some.Show.S01.1080p.WEB-DL/e02.mkv", "index": 1, "priority": "normal", "size": 10737418240, "size_downloaded": 0, "wanted": true}
    ],
    "transfer": {"downloaded_pieces": 0, "size_downloaded": 10737418240, "size_uploaded": 0, "speed_download": 0, "speed_upload": 0}
  }},
  {"id": "dbid_010", "size": 524288000, "status": "filehosting_waiting", "title": "Hosted.Archive.Part1of3", "type": "nzb", "username": "eduard"},
  {"id": "dbid_011", "size": 1073741824, "status": "captcha_needed", "title": "Mystery.Task.With.Unrecognized.Status", "type": "bt", "username": "eduard", "additional": {
    "file": [
      {"filename": "Mystery.Task.With.Unrecognized.Status/data.bin", "index": 0, "priority": "normal", "size": 1073741824, "size_downloaded": 0}
    ]
  }},
  {"id": "dbid_012", "size": 0, "status": "waiting", "title": "empty-placeholder.bin", "type": "http", "username": "eduard", "additional": {
    "detail": {"completed_time": 0, "connected_leechers": 0, "connected_peers": 0, "connected_seeders": 0, "create_time": "1754100000", "destination": "downloads", "seedelapsed": 0, "started_time": "1754100000", "total_peers": 0, "total_pieces": 0, "unzip_password": "", "uri": "", "waiting_seconds": 0},
    "file": [],
    "transfer": {"downloaded_pieces": 0, "size_downloaded": 0, "size_uploaded": 0, "speed_download": 0, "speed_upload": 0}
  }},
  {"id": "dbid_013", "size": 3145728, "status": "seeding", "title": "Mixed.Root.Release", "type": "bt", "username": "eduard", "additional": {
    "detail": {"completed_time": 0, "connected_leechers": 1, "connected_peers": 3, "connected_seeders": 2, "create_time": "1746000000", "destination": "video/tv", "seedelapsed": 3600, "started_time": "1746000000", "total_peers": 3, "total_pieces": 0, "unzip_password": "", "uri": "", "waiting_seconds": 0},
    "file": [
      {"filename": "Disc1/track01.flac", "index": 0, "priority": "normal", "size": 1048576, "size_downloaded": 1048576, "wanted": true},
      {"filename": "Disc2/track01.flac", "index": 1, "priority": "normal", "size": 2096640, "size_downloaded": 2096640, "wanted": true},
      {"filename": "readme.nfo", "index": 2, "priority": "normal", "size": 512, "size_downloaded": 512, "wanted": true}
    ],
    "transfer": {"downloaded_pieces": 0, "size_downloaded": 3145728, "size_uploaded": 1048576, "speed_download": 0, "speed_upload": 65536}
  }},
  {"id": "dbid_014", "size": 268435456, "status": "finished", "title": "Absolute.Destination.Sample", "type": "bt", "username": "eduard", "additional": {
    "detail": {"completed_time": 0, "connected_leechers": 0, "connected_peers": 0, "connected_seeders": 0, "create_time": "1745000000", "destination": "/volume1/downloads", "seedelapsed": 0, "started_time": "1745000000", "total_peers": 0, "total_pieces": 0, "unzip_password": "", "uri": "", "waiting_seconds": 0},
    "file": [
      {"filename": "Absolute.Destination.Sample/sample.bin", "index": 0, "priority": "normal", "size": 268435456, "size_downloaded": 268435456, "wanted": true}
    ],
    "transfer": {"downloaded_pieces": 0, "size_downloaded": 268435456, "size_uploaded": 0, "speed_download": 0, "speed_upload": 0}
  }}
]},"success":true}"#;

/// Every task of the sample, in the order DSM listed them. It is read the way a live
/// response is.
pub fn fixture_tasks() -> (tasks: Result<Vec<Task>, Error>)
    ensures
        fixture_answer(FIXTURE_JSON@, tasks),
{
    parse_fixture(FIXTURE_JSON)
}

/// One task of the sample by its id, `None` where it has none of that id.
pub fn fixture_task(id: &str) -> (task: Result<Option<Task>, Error>)
    ensures
        exists|tasks: Result<Vec<Task>, Error>|
            {
                &&& #[trigger] fixture_answer(FIXTURE_JSON@, tasks)
                &&& match tasks {
                    Ok(list) => task == Ok::<Option<Task>, Error>(task_by_id(list@, id@)),
                    Err(err) => task == Err::<Option<Task>, Error>(err),
                }
            },
{
    let tasks = fixture_tasks();
    let ghost answer = tasks;
    proof {
        assert(fixture_answer(FIXTURE_JSON@, answer));
    }
    let mut list = match tasks {
        Ok(list) => list,
        Err(err) => {
            return Err(err);
        },
    };
    let mut i: usize = 0;
    proof {
        assert(list@.skip(0) =~= list@);
    }
    while i < list.len() && !same_text(list[i].id.as_str(), id)
        invariant
            i <= list@.len(),
            answer == Ok::<Vec<Task>, Error>(list),
            task_by_id(list@, id@) == task_by_id(list@.skip(i as int), id@),
        decreases list@.len() - i,
    {
        proof {
            assert(list@.skip(i as int)[0] == list@[i as int]);
            assert(list@.skip(i as int).skip(1) =~= list@.skip(i + 1));
        }
        i += 1;
    }
    if i < list.len() {
        proof {
            assert(list@.skip(i as int)[0] == list@[i as int]);
        }
        Ok(Some(list.remove(i)))
    } else {
        Ok(None)
    }
}

/// A resolved configuration pointing at a host that does not exist: `nas.invalid` is in
/// the reserved `.invalid` top-level domain, so it can never resolve.
pub fn offline_config() -> (config: ResolvedConfig)
    ensures
        config.host@ == "nas.invalid"@,
        config.username@ == "tester"@,
        config == (ResolvedConfig {
            host: config.host,
            port: 5001,
            https: true,
            insecure: false,
            username: config.username,
            refresh_secs: 3,
            delete_files: true,
            dry_run: true,
            logout: false,
        }),
{
    ResolvedConfig {
        host: "nas.invalid".to_owned(),
        port: 5001,
        https: true,
        insecure: false,
        username: "tester".to_owned(),
        refresh_secs: 3,
        delete_files: true,
        dry_run: true,
        logout: false,
    }
}

/// A client that has discovered nothing: every call fails before a request is made.
pub fn offline_client() -> (client: SynoClient)
    ensures
        client.base_url@ == "https"@ + "://"@ + "nas.invalid"@ + ":"@ + decimal(5001),
        client.apis@ == Map::<Seq<char>, crate::api::client::ApiInfo>::empty(),
        client.sid is None,
        client.credentials is None,
        !client.permission_is_real,
{
    SynoClient::new(&offline_config())
}

} // verus!
