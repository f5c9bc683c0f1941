# sound_direction

A UDP service receives the samples of two microphones, checks each channel for
speech with a spectral detector and, when either channel holds speech, replies
with the angle of arrival of the sound, found from the lag at which the two
signals correlate best.

- `src/` is the verified library:
  - `config` — the server settings, the `host:port` address and the receive buffer;
  - `audio` — the datagram: the 16-bit samples of both microphones;
  - `spectral_vad` — frequency-to-bin mapping, the low and speech bands, the detector trait;
  - `correlation` — exact cross-correlation, the peak search and its laws
    (mirroring under exchange of the microphones, autocorrelation peaks at lag zero);
  - `server` — what to do with a datagram given the two detector results.
- `app/` is the program around it: configuration file, UDP socket, the FFT-based
  detectors and the floating-point angle, which the library does not hold.
- `tests/` runs the library on concrete values.
