# tts-rs

A text-to-speech server for the Kokoro-82M model. It takes JSON-RPC 2.0 requests, synthesizes speech
in ONNX inference sessions and uploads MP3 files to S3. Job states are kept in Redis for two hours.

`src/` is the core of the server as a library whose functions are specified and proved with Verus:

| module | what it holds |
| --- | --- |
| `text` | characters, decimal numbers, white space, the order of texts |
| `single` | single-precision numbers by their bit patterns, 16-bit samples |
| `json` | what `serde_json` reads and writes |
| `misaki` | what `misaki-rs` phonemizes |
| `phonemizer` | backends, the vocabulary, token sequences |
| `voices` | voice files, the voice bank, style embeddings |
| `inference` | inference inputs and outcomes, the session pool, WAV and MP3 files |
| `handlers` | health, voices, request checks, the synthesis pipeline |
| `rpc` | requests, responses, submissions, jobs and their states |
| `config` | settings and the API key |
| `download` | model files and where they come from |
| `cli` | the command-line synthesizer |
| `error` | errors, their texts and HTTP statuses |

`app/` is the program around it: sockets, files, Redis, S3, the ONNX runtime and `libespeak-ng`. It
hands the library what came of its work and carries out what the library decides.

```bash
tts-rs                              # run the server
tts-rs download-model               # download the model files into ./models
tts-rs synth "Hello world" -o a.mp3 # synthesize without the server
```

| variable | default | |
| --- | --- | --- |
| `REDIS_URL`, `BUCKET_NAME` | | required by the server |
| `TTS_RS_API_KEY` | *(open)* | key for `/rpc` and `/voices`, sent as `x-api-key` |
| `MODEL_DIR` | `./models` | `vocab.json`, `voices/` and the model |
| `MODEL_FILE` | `model_quantized.onnx` | the model in `MODEL_DIR` |
| `SESSION_POOL_SIZE` | `2` | inference sessions |
| `PHONEMIZER` | `espeak` | `espeak` or `misaki` |
| `PORT` | `8080` | |
| `KOKORO_MODEL_FILE` | `model_quantized.onnx` | the model that `download-model` fetches |
