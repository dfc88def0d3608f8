use std::collections::HashMap;
use std::io::{Cursor, Write};

use launcher_core::download::{run_download, ChunkArrival, DownloadError, Event};
use launcher_core::extract::FsAction;
use launcher_core::install::{plan_installation, OperationError};

fn payload_of(len: usize) -> Vec<u8> {
    let mut bytes = Vec::with_capacity(len);
    for i in 0..len {
        bytes.push((i % 251) as u8);
    }
    bytes
}

fn zip_single_file(name: &str, content: &[u8]) -> Vec<u8> {
    let mut writer = zip::ZipWriter::new(Cursor::new(Vec::new()));
    let options = zip::write::SimpleFileOptions::default();
    writer.start_file(name, options).unwrap();
    writer.write_all(content).unwrap();
    writer.finish().unwrap().into_inner()
}

fn chunked(bytes: &[u8], chunk_len: usize, first_ms: u64, step_ms: u64) -> Vec<ChunkArrival> {
    let mut chunks = Vec::new();
    let mut start = 0;
    let mut now = first_ms;
    while start < bytes.len() {
        let end = if start + chunk_len < bytes.len() { start + chunk_len } else { bytes.len() };
        chunks.push(ChunkArrival { data: bytes[start..end].to_vec(), now_ms: now });
        start = end;
        now += step_ms;
    }
    chunks
}

#[test]
fn full_operation_downloads_samples_and_extracts() {
    let content = payload_of(500_000);
    let archive = zip_single_file("config/app.bin", &content);
    let declared = archive.len() as u64;
    let chunks = chunked(&archive, 100_000, 60, 60);

    let completed = run_download(String::from("install-1"), Some(declared), 0, chunks)
        .ok()
        .unwrap();

    let trace = &completed.trace;
    assert!(matches!(&trace[0], Event::Start { .. }));
    assert!(matches!(&trace[trace.len() - 1], Event::Finish { .. }));
    let mut ratios: Vec<f32> = Vec::new();
    for event in &trace[1..trace.len() - 1] {
        match event {
            Event::Progress { sample } => {
                assert_eq!(sample.file_size, declared);
                ratios.push((sample.total_bytes as f32) / (sample.file_size as f32));
            },
            _ => panic!("only progress events may stand between start and finish"),
        }
    }
    assert!(ratios.len() >= 1);
    for pair in ratios.windows(2) {
        assert!(pair[0] < pair[1]);
    }
    for r in &ratios {
        assert!(*r <= 1.0);
    }
    assert!((ratios[ratios.len() - 1] - 1.0).abs() < 1e-6);

    let plan = plan_installation(Ok(completed)).ok().unwrap();
    let mut dirs = Vec::new();
    let mut files = HashMap::new();
    for action in &plan {
        match action {
            FsAction::EnsureDir { path } => {
                let p = String::from_utf8(path.clone()).unwrap();
                if !dirs.contains(&p) {
                    dirs.push(p);
                }
            },
            FsAction::WriteFile { path, data } => {
                files.insert(String::from_utf8(path.clone()).unwrap(), data.clone());
            },
        }
    }
    assert!(dirs.contains(&String::from("config")));
    let written = files.get("config/app.bin").unwrap();
    assert_eq!(written.len(), 500_000);
    assert_eq!(written, &content);
}

#[test]
fn missing_length_yields_no_result_and_writes_nothing() {
    let archive = zip_single_file("config/app.bin", b"data");
    let chunks = chunked(&archive, 1000, 60, 60);

    let outcome = run_download(String::from("install-2"), None, 0, chunks);
    let failure = match outcome {
        Err(f) => f,
        Ok(_) => panic!("a response without a content length must yield no result"),
    };
    assert_eq!(failure.error, DownloadError::MissingContentLength);
    assert_eq!(failure.trace.len(), 1);
    assert!(matches!(&failure.trace[0], Event::Start { .. }));

    let planned = plan_installation(Err(failure));
    match planned {
        Err(OperationError::Download(e)) => assert_eq!(e, DownloadError::MissingContentLength),
        _ => panic!("the operation must fail without extracting anything"),
    }
}

#[test]
fn extraction_failure_is_propagated_by_the_operation() {
    let chunks = vec![ChunkArrival { data: vec![1, 2, 3, 4], now_ms: 60 }];
    let completed = run_download(String::from("install-3"), Some(4), 0, chunks).ok().unwrap();
    let planned = plan_installation(Ok(completed));
    match planned {
        Err(OperationError::Extract(e)) => {
            assert_eq!(e, launcher_core::extract::ExtractError::InvalidArchive)
        },
        _ => panic!("an unextractable buffer must fail the operation"),
    }
}
